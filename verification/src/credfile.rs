//! The shared credentials file, modelled as an ordered list of named
//! sections of key/value pairs. Reading and writing the bytes is the
//! caller's business; this module parses text into the model, replaces one
//! profile's section wholesale, and renders the model back to text.

use vstd::prelude::*;
use vstd::string::*;

use crate::credentials::{Credentials, CredentialsV};
use crate::error::Error;
use crate::strutil::{find_char_from, spec_find_from, spec_trim, str_eq, trim_of};

verus! {

/// One `key = value` line of a section.
#[derive(Debug)]
pub struct Entry {
    pub key: String,
    pub value: String,
}

/// One `[name]` section and its entries, in file order.
#[derive(Debug)]
pub struct Section {
    pub name: String,
    pub entries: Vec<Entry>,
}

/// The in-memory credentials file: its sections, in file order.
#[derive(Debug)]
pub struct CredentialFile {
    pub sections: Vec<Section>,
}

/// The mathematical value of an `Entry`.
#[verifier::ext_equal]
pub struct EntryV {
    pub key: Seq<char>,
    pub value: Seq<char>,
}

/// The mathematical value of a `Section`.
#[verifier::ext_equal]
pub struct SectionV {
    pub name: Seq<char>,
    pub entries: Seq<EntryV>,
}

impl View for Entry {
    type V = EntryV;

    open spec fn view(&self) -> EntryV {
        EntryV { key: self.key@, value: self.value@ }
    }
}

impl DeepView for Entry {
    type V = EntryV;

    open spec fn deep_view(&self) -> EntryV {
        self@
    }
}

impl View for Section {
    type V = SectionV;

    open spec fn view(&self) -> SectionV {
        SectionV { name: self.name@, entries: self.entries.deep_view() }
    }
}

impl DeepView for Section {
    type V = SectionV;

    open spec fn deep_view(&self) -> SectionV {
        self@
    }
}

impl View for CredentialFile {
    type V = Seq<SectionV>;

    open spec fn view(&self) -> Seq<SectionV> {
        self.sections.deep_view()
    }
}

/// What one line of the file means.
pub enum LineClass {
    /// Nothing: empty, all whitespace, or a `;`/`#` comment.
    Blank,
    /// A `[name]` section header.
    Header(Seq<char>),
    /// A `key = value` pair.
    Pair(Seq<char>, Seq<char>),
    /// None of the above; the file does not parse.
    Bad,
}

/// Classifies one line, whitespace-insensitively.
pub open spec fn classify_line(line: Seq<char>) -> LineClass {
    let t = spec_trim(line);
    if t.len() == 0 {
        LineClass::Blank
    } else if t[0] == ';' || t[0] == '#' {
        LineClass::Blank
    } else if t[0] == '[' {
        if t.last() == ']' && t.len() >= 2 {
            let name = spec_trim(t.subrange(1, t.len() - 1));
            if name.len() > 0 {
                LineClass::Header(name)
            } else {
                LineClass::Bad
            }
        } else {
            LineClass::Bad
        }
    } else {
        let e = spec_find_from(t, 0, '=');
        if 0 < e && e < t.len() {
            let key = spec_trim(t.subrange(0, e));
            let value = spec_trim(t.subrange(e + 1, t.len() as int));
            if key.len() > 0 {
                LineClass::Pair(key, value)
            } else {
                LineClass::Bad
            }
        } else {
            LineClass::Bad
        }
    }
}

/// Executable mirror of `LineClass`.
enum Line {
    Blank,
    Header(String),
    Pair(String, String),
    Bad,
}

/// Classifies one line, exactly as `classify_line` says.
fn classify(line: &str) -> (r: Line)
    ensures
        match r {
            Line::Blank => classify_line(line@) == LineClass::Blank,
            Line::Header(n) => classify_line(line@) == LineClass::Header(n@),
            Line::Pair(k, v) => classify_line(line@) == LineClass::Pair(k@, v@),
            Line::Bad => classify_line(line@) == LineClass::Bad,
        },
{
    let t = trim_of(line);
    let tn = t.as_str().unicode_len();
    if tn == 0 {
        return Line::Blank;
    }
    let c0 = t.as_str().get_char(0);
    if c0 == ';' || c0 == '#' {
        return Line::Blank;
    }
    if c0 == '[' {
        let cl = t.as_str().get_char(tn - 1);
        if cl == ']' && tn >= 2 {
            let name = trim_of(t.as_str().substring_char(1, tn - 1));
            if !name.as_str().is_empty() {
                return Line::Header(name);
            }
        }
        return Line::Bad;
    }
    let e = find_char_from(t.as_str(), 0, '=');
    if 0 < e && e < tn {
        let key = trim_of(t.as_str().substring_char(0, e));
        let value = trim_of(t.as_str().substring_char(e + 1, tn));
        if !key.as_str().is_empty() {
            return Line::Pair(key, value);
        }
    }
    Line::Bad
}

/// Closes the section under construction, if any.
pub open spec fn seal(done: Seq<SectionV>, cur: Option<SectionV>) -> Seq<SectionV> {
    match cur {
        Some(s) => done.push(s),
        None => done,
    }
}

/// Folds the lines of `s` from position `i` on into sections: a header
/// opens a section, a pair extends the open one (there must be one), and a
/// malformed line, or a pair before any header, makes the whole text
/// malformed.
pub open spec fn spec_parse_ini_from(
    s: Seq<char>,
    i: int,
    done: Seq<SectionV>,
    cur: Option<SectionV>,
) -> Option<Seq<SectionV>>
    decreases s.len() - i,
{
    if i < 0 || i >= s.len() {
        Some(seal(done, cur))
    } else {
        let e = spec_find_from(s, i, '\n');
        let line = s.subrange(i, e);
        let next = if i <= e && e < s.len() {
            e + 1
        } else {
            s.len() as int
        };
        match classify_line(line) {
            LineClass::Blank => spec_parse_ini_from(s, next, done, cur),
            LineClass::Header(name) => spec_parse_ini_from(
                s,
                next,
                seal(done, cur),
                Some(SectionV { name, entries: Seq::empty() }),
            ),
            LineClass::Pair(k, v) => match cur {
                Some(sec) => spec_parse_ini_from(
                    s,
                    next,
                    done,
                    Some(
                        SectionV {
                            name: sec.name,
                            entries: sec.entries.push(EntryV { key: k, value: v }),
                        },
                    ),
                ),
                None => None,
            },
            LineClass::Bad => None,
        }
    }
}

/// What a whole credentials-file text parses to, if it parses.
pub open spec fn spec_parse_ini(s: Seq<char>) -> Option<Seq<SectionV>> {
    spec_parse_ini_from(s, 0, Seq::empty(), None)
}

/// Parses credentials-file text into sections, exactly as `spec_parse_ini`
/// says.
fn parse_sections(text: &str) -> (r: Option<Vec<Section>>)
    ensures
        match r {
            Some(secs) => spec_parse_ini(text@) == Some(secs.deep_view()),
            None => spec_parse_ini(text@) is None,
        },
{
    let n = text.unicode_len();
    let mut done: Vec<Section> = Vec::new();
    let mut cur: Option<Section> = None;
    let mut i: usize = 0;
    proof {
        assert(done.deep_view() =~= Seq::<SectionV>::empty());
        assert(cur.deep_view() == None::<SectionV>);
    }
    while i < n
        invariant
            n == text@.len(),
            i <= n,
            spec_parse_ini(text@) == spec_parse_ini_from(
                text@,
                i as int,
                done.deep_view(),
                cur.deep_view(),
            ),
        decreases n - i,
    {
        let ghost done0 = done.deep_view();
        let ghost cur0 = cur.deep_view();
        let ghost i0 = i as int;
        let e = find_char_from(text, i, '\n');
        let line = text.substring_char(i, e);
        let next: usize = if e >= n {
            n
        } else {
            e + 1
        };
        match classify(line) {
            Line::Blank => {},
            Line::Header(name) => {
                let prev = cur;
                match prev {
                    Some(sec) => done.push(sec),
                    None => {},
                }
                cur = Some(Section { name, entries: Vec::new() });
                proof {
                    assert(done.deep_view() =~= seal(done0, cur0));
                    assert(cur.deep_view() == Some(
                        SectionV {
                            name: cur.unwrap().name@,
                            entries: Seq::<EntryV>::empty(),
                        },
                    ));
                    assert(cur.unwrap().entries.deep_view() =~= Seq::<EntryV>::empty());
                }
            },
            Line::Pair(k, v) => {
                let prev = cur;
                match prev {
                    Some(mut sec) => {
                        let ghost sec0 = sec@;
                        sec.entries.push(Entry { key: k, value: v });
                        proof {
                            assert(sec.entries.deep_view() =~= sec0.entries.push(
                                EntryV { key: k@, value: v@ },
                            ));
                        }
                        cur = Some(sec);
                    },
                    None => {
                        return None;
                    },
                }
            },
            Line::Bad => {
                return None;
            },
        }
        i = next;
        proof {
            assert(spec_parse_ini_from(text@, i0, done0, cur0) == spec_parse_ini_from(
                text@,
                i as int,
                done.deep_view(),
                cur.deep_view(),
            ));
        }
    }
    let prev = cur;
    match prev {
        Some(sec) => done.push(sec),
        None => {},
    }
    Some(done)
}

/// One rendered entry line.
pub open spec fn render_entry(e: EntryV) -> Seq<char> {
    e.key + " = "@ + e.value + "\n"@
}

/// The rendered entry lines of a section, in order.
pub open spec fn render_entries(es: Seq<EntryV>) -> Seq<char>
    decreases es.len(),
{
    if es.len() == 0 {
        Seq::empty()
    } else {
        render_entries(es.drop_last()) + render_entry(es.last())
    }
}

/// One rendered section: its header line, then its entries.
pub open spec fn render_section(s: SectionV) -> Seq<char> {
    "["@ + s.name + "]\n"@ + render_entries(s.entries)
}

/// The whole rendered file, in section order; empty for an empty file.
pub open spec fn render_sections(ss: Seq<SectionV>) -> Seq<char>
    decreases ss.len(),
{
    if ss.len() == 0 {
        Seq::empty()
    } else {
        render_sections(ss.drop_last()) + render_section(ss.last())
    }
}

/// The sections of `ss` not named `name`, in order.
pub open spec fn remove_profile(ss: Seq<SectionV>, name: Seq<char>) -> Seq<SectionV>
    decreases ss.len(),
{
    if ss.len() == 0 {
        Seq::empty()
    } else {
        let rest = remove_profile(ss.drop_last(), name);
        if ss.last().name == name {
            rest
        } else {
            rest.push(ss.last())
        }
    }
}

/// The section that `set_credentials` writes: exactly the three credential
/// keys, in this order.
pub open spec fn credential_section(profile: Seq<char>, c: CredentialsV) -> SectionV {
    SectionV {
        name: profile,
        entries: seq![
            EntryV { key: "aws_access_key_id"@, value: c.access_key_id },
            EntryV { key: "aws_secret_access_key"@, value: c.secret_access_key },
            EntryV { key: "aws_session_token"@, value: c.session_token },
        ],
    }
}

/// The file after the named profile is replaced wholesale: every section
/// with that name removed, then the fresh section appended at the end.
pub open spec fn spec_set_credentials(
    ss: Seq<SectionV>,
    profile: Seq<char>,
    c: CredentialsV,
) -> Seq<SectionV> {
    remove_profile(ss, profile).push(credential_section(profile, c))
}

impl CredentialFile {
    /// Builds the in-memory file from the text read off disk, or from
    /// nothing when the file does not exist — that is no error, just an
    /// empty file. `path` only names the file in the error.
    pub fn load(contents: Option<&String>, path: &str) -> (r: Result<CredentialFile, Error>)
        ensures
            match contents {
                None => r matches Ok(f) && f@ == Seq::<SectionV>::empty(),
                Some(text) => match spec_parse_ini(text@) {
                    Some(ss) => r matches Ok(f) && f@ == ss,
                    None => r matches Err(e) && e matches Error::MalformedCredentialFile(p)
                        && p@ == path@,
                },
            },
    {
        match contents {
            None => {
                let f = CredentialFile { sections: Vec::new() };
                proof {
                    assert(f@ =~= Seq::<SectionV>::empty());
                }
                Ok(f)
            },
            Some(text) => match parse_sections(text.as_str()) {
                Some(sections) => Ok(CredentialFile { sections }),
                None => Err(Error::MalformedCredentialFile(String::from_str(path))),
            },
        }
    }

    /// Replaces the named profile's section wholesale: any section with
    /// that name is removed, and a fresh one holding exactly the three
    /// credential keys is appended. No stale key survives.
    pub fn set_credentials(&mut self, profile: &str, credentials: &Credentials)
        ensures
            final(self)@ == spec_set_credentials(old(self)@, profile@, credentials@),
    {
        let ghost orig = self.sections.deep_view();
        let mut kept: Vec<Section> = Vec::new();
        let ghost mut prefix = Seq::<SectionV>::empty();
        proof {
            assert(prefix + self.sections.deep_view() =~= orig);
        }
        while self.sections.len() > 0
            invariant
                prefix + self.sections.deep_view() =~= orig,
                kept.deep_view() == remove_profile(prefix, profile@),
            decreases self.sections.len(),
        {
            let ghost prefix0 = prefix;
            let ghost remaining0 = self.sections.deep_view();
            let sec = self.sections.remove(0);
            proof {
                prefix = prefix0.push(sec@);
                assert(self.sections.deep_view() =~= remaining0.drop_first());
                assert(prefix + self.sections.deep_view() =~= orig);
                assert(prefix.drop_last() =~= prefix0);
                assert(prefix.last() == sec@);
            }
            if !str_eq(sec.name.as_str(), profile) {
                kept.push(sec);
                proof {
                    assert(kept.deep_view() =~= remove_profile(prefix0, profile@).push(
                        prefix.last(),
                    ));
                }
            }
        }
        proof {
            assert(prefix =~= orig);
        }
        let mut entries: Vec<Entry> = Vec::new();
        entries.push(
            Entry {
                key: String::from_str("aws_access_key_id"),
                value: credentials.access_key_id.clone(),
            },
        );
        entries.push(
            Entry {
                key: String::from_str("aws_secret_access_key"),
                value: credentials.secret_access_key.clone(),
            },
        );
        entries.push(
            Entry {
                key: String::from_str("aws_session_token"),
                value: credentials.session_token.clone(),
            },
        );
        let sec = Section { name: String::from_str(profile), entries };
        proof {
            assert(sec@.entries =~= credential_section(profile@, credentials@).entries);
            assert(sec@ =~= credential_section(profile@, credentials@));
        }
        kept.push(sec);
        self.sections = kept;
        proof {
            assert(self@ =~= spec_set_credentials(orig, profile@, credentials@));
        }
    }

    /// Renders the file back to text; the caller writes the bytes to disk
    /// in one truncating write. An empty file renders as empty text.
    pub fn save(&self) -> (r: String)
        ensures
            r@ == render_sections(self@),
    {
        let ghost dv = self@;
        let mut out = String::new();
        let mut i: usize = 0;
        proof {
            assert(out@ =~= render_sections(dv.subrange(0, 0)));
        }
        while i < self.sections.len()
            invariant
                dv == self@,
                i <= self.sections.len(),
                dv.len() == self.sections@.len(),
                out@ == render_sections(dv.subrange(0, i as int)),
            decreases self.sections.len() - i,
        {
            let ghost out0 = out@;
            let sec = &self.sections[i];
            proof {
                assert(sec@ == dv[i as int]);
            }
            out.append("[");
            out.append(sec.name.as_str());
            out.append("]\n");
            proof {
                assert(out@ =~= out0 + ("["@ + sec@.name + "]\n"@));
            }
            let ghost head = out@;
            let mut j: usize = 0;
            proof {
                assert(sec@.entries.subrange(0, 0) =~= Seq::<EntryV>::empty());
                assert(out@ =~= head + render_entries(sec@.entries.subrange(0, 0)));
            }
            while j < sec.entries.len()
                invariant
                    sec@ == dv[i as int],
                    0 <= i < dv.len(),
                    j <= sec.entries.len(),
                    sec@.entries.len() == sec.entries@.len(),
                    out@ == head + render_entries(sec@.entries.subrange(0, j as int)),
                decreases sec.entries.len() - j,
            {
                let ghost mid0 = out@;
                let e = &sec.entries[j];
                proof {
                    assert(e@ == sec@.entries[j as int]);
                }
                out.append(e.key.as_str());
                out.append(" = ");
                out.append(e.value.as_str());
                out.append("\n");
                proof {
                    let es = sec@.entries;
                    assert(es.subrange(0, j + 1).drop_last() =~= es.subrange(0, j as int));
                    assert(es.subrange(0, j + 1).last() == es[j as int]);
                    assert(out@ =~= mid0 + render_entry(es[j as int]));
                    assert(out@ =~= head + render_entries(es.subrange(0, j + 1)));
                }
                j = j + 1;
            }
            proof {
                let es = sec@.entries;
                assert(es.subrange(0, es.len() as int) =~= es);
                assert(dv.subrange(0, i + 1).drop_last() =~= dv.subrange(0, i as int));
                assert(dv.subrange(0, i + 1).last() == dv[i as int]);
                assert(out@ =~= render_sections(dv.subrange(0, i as int)) + render_section(
                    dv[i as int],
                ));
                assert(out@ =~= render_sections(dv.subrange(0, i + 1)));
            }
            i = i + 1;
        }
        proof {
            assert(dv.subrange(0, dv.len() as int) =~= dv);
        }
        out
    }
}

/// Removing a profile is the same as filtering it out: every other
/// section survives, in order.
pub proof fn lemma_remove_profile_is_filter(ss: Seq<SectionV>, name: Seq<char>)
    ensures
        remove_profile(ss, name) == ss.filter(|s: SectionV| s.name != name),
    decreases ss.len(),
{
    reveal(Seq::filter);
    if ss.len() > 0 {
        lemma_remove_profile_is_filter(ss.drop_last(), name);
    }
}

/// Replacing a profile leaves a file whose last section is exactly the
/// three credential keys under that profile, and whose other sections are
/// exactly the sections of the old file not so named, in their old order —
/// any stale key of an old section with that name is gone with it.
pub proof fn lemma_set_credentials_replaces(ss: Seq<SectionV>, profile: Seq<char>, c: CredentialsV)
    ensures
        spec_set_credentials(ss, profile, c).len() >= 1,
        spec_set_credentials(ss, profile, c).last() == credential_section(profile, c),
        spec_set_credentials(ss, profile, c).drop_last() == ss.filter(
            |s: SectionV| s.name != profile,
        ),
{
    lemma_remove_profile_is_filter(ss, profile);
    assert(spec_set_credentials(ss, profile, c).drop_last() =~= remove_profile(ss, profile));
}

} // verus!
