//! The round-trip law of the credentials file: a well-formed in-memory
//! file, rendered and parsed back, comes back unchanged — so a load, a
//! profile replacement, a save and a reload yield exactly the replaced
//! profile with its three keys and every other section untouched.

use vstd::prelude::*;

use crate::credentials::CredentialsV;
use crate::credfile::{
    classify_line,
    credential_section,
    remove_profile,
    render_entries,
    render_entry,
    render_section,
    render_sections,
    seal,
    spec_parse_ini,
    spec_parse_ini_from,
    spec_set_credentials,
    EntryV,
    LineClass,
    SectionV,
};
use crate::strutil::{is_ini_ws, spec_find_from, spec_ltrim_idx, spec_rtrim_idx, spec_trim};

verus! {

/// A string that renders onto a single line and survives trimming: it is
/// non-empty, holds no line break, and neither starts nor ends with
/// insignificant whitespace.
pub open spec fn wf_text(s: Seq<char>) -> bool {
    &&& s.len() > 0
    &&& !is_ini_ws(s[0])
    &&& !is_ini_ws(s.last())
    &&& forall|i: int| 0 <= i < s.len() ==> #[trigger] s[i] != '\n'
}

/// A section name that renders back to itself: single-line, trimmed, and
/// free of the closing bracket.
pub open spec fn wf_name(n: Seq<char>) -> bool {
    &&& wf_text(n)
    &&& forall|i: int| 0 <= i < n.len() ==> #[trigger] n[i] != ']'
}

/// A key that renders back to itself: single-line, trimmed, free of the
/// separator, and not opening a header or a comment.
pub open spec fn wf_key(k: Seq<char>) -> bool {
    &&& wf_text(k)
    &&& (forall|i: int| 0 <= i < k.len() ==> #[trigger] k[i] != '=')
    &&& k[0] != '['
    &&& k[0] != ';'
    &&& k[0] != '#'
}

pub open spec fn wf_entry(e: EntryV) -> bool {
    wf_key(e.key) && wf_text(e.value)
}

pub open spec fn wf_section(s: SectionV) -> bool {
    &&& wf_name(s.name)
    &&& forall|i: int| 0 <= i < s.entries.len() ==> wf_entry(#[trigger] s.entries[i])
}

pub open spec fn wf_sections(ss: Seq<SectionV>) -> bool {
    forall|i: int| 0 <= i < ss.len() ==> wf_section(#[trigger] ss[i])
}

/// A search that skips over known non-matches lands exactly on the first
/// match, or on the end when there is none.
proof fn lemma_find_from_is(s: Seq<char>, i: int, k: int, c: char)
    requires
        0 <= i <= k <= s.len(),
        forall|j: int| i <= j < k ==> #[trigger] s[j] != c,
        k == s.len() || s[k] == c,
    ensures
        spec_find_from(s, i, c) == k,
    decreases k - i,
{
    if i < k {
        lemma_find_from_is(s, i + 1, k, c);
    }
}

/// A search never lands outside the text.
proof fn lemma_find_bounds(s: Seq<char>, i: int, c: char)
    requires
        0 <= i <= s.len(),
    ensures
        i <= spec_find_from(s, i, c) <= s.len(),
    decreases s.len() - i,
{
    if i < s.len() && s[i] != c {
        lemma_find_bounds(s, i + 1, c);
    }
}

/// Searching the tail of a concatenation never sees the head.
proof fn lemma_find_shift(x: Seq<char>, y: Seq<char>, j: int, c: char)
    requires
        0 <= j <= y.len(),
    ensures
        spec_find_from(x + y, x.len() + j, c) == x.len() + spec_find_from(y, j, c),
    decreases y.len() - j,
{
    if j < y.len() {
        assert((x + y)[x.len() + j] == y[j]);
        if y[j] != c {
            lemma_find_shift(x, y, j + 1, c);
        }
    }
}

/// Parsing from a position past a prefix never sees the prefix.
proof fn lemma_parse_shift(
    x: Seq<char>,
    y: Seq<char>,
    j: int,
    done: Seq<SectionV>,
    cur: Option<SectionV>,
)
    requires
        0 <= j <= y.len(),
    ensures
        spec_parse_ini_from(x + y, x.len() + j, done, cur) == spec_parse_ini_from(y, j, done, cur),
    decreases y.len() - j,
{
    if j < y.len() {
        lemma_find_shift(x, y, j, '\n');
        lemma_find_bounds(y, j, '\n');
        let e0 = spec_find_from(y, j, '\n');
        let e1 = spec_find_from(x + y, x.len() + j, '\n');
        assert((x + y).subrange(x.len() + j, e1) =~= y.subrange(j, e0));
        let next0 = if j <= e0 && e0 < y.len() {
            e0 + 1
        } else {
            y.len() as int
        };
        if next0 <= y.len() {
            lemma_parse_shift(x, y, next0, done, cur);
            match classify_line(y.subrange(j, e0)) {
                LineClass::Blank => {},
                LineClass::Header(name) => {
                    lemma_parse_shift(
                        x,
                        y,
                        next0,
                        seal(done, cur),
                        Some(SectionV { name, entries: Seq::empty() }),
                    );
                },
                LineClass::Pair(k, v) => {
                    match cur {
                        Some(sec) => {
                            lemma_parse_shift(
                                x,
                                y,
                                next0,
                                done,
                                Some(
                                    SectionV {
                                        name: sec.name,
                                        entries: sec.entries.push(EntryV { key: k, value: v }),
                                    },
                                ),
                            );
                        },
                        None => {},
                    }
                },
                LineClass::Bad => {},
            }
        }
    }
}

/// Rendering distributes over concatenation of entry lists.
proof fn lemma_render_entries_concat(a: Seq<EntryV>, b: Seq<EntryV>)
    ensures
        render_entries(a + b) == render_entries(a) + render_entries(b),
    decreases b.len(),
{
    if b.len() == 0 {
        assert(a + b =~= a);
        assert(render_entries(a) + render_entries(b) =~= render_entries(a));
    } else {
        lemma_render_entries_concat(a, b.drop_last());
        assert((a + b).drop_last() =~= a + b.drop_last());
        assert((a + b).last() == b.last());
        assert(render_entries(a) + (render_entries(b.drop_last()) + render_entry(b.last())) =~= (
        render_entries(a) + render_entries(b.drop_last())) + render_entry(b.last()));
    }
}

/// Rendering distributes over concatenation of section lists.
proof fn lemma_render_sections_concat(a: Seq<SectionV>, b: Seq<SectionV>)
    ensures
        render_sections(a + b) == render_sections(a) + render_sections(b),
    decreases b.len(),
{
    if b.len() == 0 {
        assert(a + b =~= a);
        assert(render_sections(a) + render_sections(b) =~= render_sections(a));
    } else {
        lemma_render_sections_concat(a, b.drop_last());
        assert((a + b).drop_last() =~= a + b.drop_last());
        assert((a + b).last() == b.last());
        assert(render_sections(a) + (render_sections(b.drop_last()) + render_section(b.last()))
            =~= (render_sections(a) + render_sections(b.drop_last())) + render_section(b.last()));
    }
}

/// A string whose ends are not whitespace is its own trim.
proof fn lemma_trim_identity(s: Seq<char>)
    requires
        s.len() > 0,
        !is_ini_ws(s[0]),
        !is_ini_ws(s.last()),
    ensures
        spec_trim(s) == s,
{
    assert(spec_ltrim_idx(s, 0) == 0);
    assert(spec_rtrim_idx(s, s.len() as int) == s.len());
    assert(s.subrange(0, s.len() as int) =~= s);
}

/// A well-formed name between brackets reads back as its header.
proof fn lemma_header_line(n: Seq<char>)
    requires
        wf_name(n),
    ensures
        classify_line(seq!['['] + n + seq![']']) == LineClass::Header(n),
{
    let line = seq!['['] + n + seq![']'];
    assert(line[0] == '[');
    assert(line.last() == ']');
    lemma_trim_identity(line);
    let t = spec_trim(line);
    assert(t.len() >= 2);
    assert(t.subrange(1, t.len() - 1) =~= n);
    lemma_trim_identity(n);
}

/// A well-formed key and value around the separator read back as their
/// pair.
proof fn lemma_entry_line(k: Seq<char>, v: Seq<char>)
    requires
        wf_key(k),
        wf_text(v),
    ensures
        classify_line(k + seq![' ', '=', ' '] + v) == LineClass::Pair(k, v),
{
    let line = k + seq![' ', '=', ' '] + v;
    assert(line[0] == k[0]);
    assert(line.last() == v.last());
    lemma_trim_identity(line);
    let t = spec_trim(line);
    let e = k.len() as int + 1;
    assert(t[e] == '=');
    assert forall|j: int| 0 <= j < e implies t[j] != '=' by {
        if j < k.len() {
            assert(t[j] == k[j]);
        } else {
            assert(t[j] == ' ');
        }
    }
    lemma_find_from_is(t, 0, e, '=');
    assert(0 < e && e < t.len());
    let kpad = t.subrange(0, e);
    assert(kpad =~= k + seq![' ']);
    assert(spec_ltrim_idx(kpad, 0) == 0);
    assert(spec_rtrim_idx(kpad, kpad.len() as int) == spec_rtrim_idx(kpad, k.len() as int));
    assert(spec_rtrim_idx(kpad, k.len() as int) == k.len());
    assert(spec_trim(kpad) =~= k);
    let vpad = t.subrange(e + 1, t.len() as int);
    assert(vpad =~= seq![' '] + v);
    assert(spec_ltrim_idx(vpad, 0) == spec_ltrim_idx(vpad, 1));
    assert(spec_ltrim_idx(vpad, 1) == 1);
    assert(vpad.last() == v.last());
    assert(spec_rtrim_idx(vpad, vpad.len() as int) == vpad.len());
    assert(spec_trim(vpad) =~= v);
}

/// Parsing the rendered entries inside an open section appends exactly
/// those entries to it, whatever text follows.
#[verifier::rlimit(60)]
proof fn lemma_parse_entries(es: Seq<EntryV>, t: Seq<char>, done: Seq<SectionV>, sec: SectionV)
    requires
        forall|i: int| 0 <= i < es.len() ==> wf_entry(#[trigger] es[i]),
    ensures
        spec_parse_ini_from(render_entries(es) + t, 0, done, Some(sec)) == spec_parse_ini_from(
            t,
            0,
            done,
            Some(SectionV { name: sec.name, entries: sec.entries + es }),
        ),
    decreases es.len(),
{
    reveal_strlit(" = ");
    reveal_strlit("\n");
    if es.len() == 0 {
        assert(render_entries(es) + t =~= t);
        assert(sec.entries + es =~= sec.entries);
        assert(SectionV { name: sec.name, entries: sec.entries + es } =~= sec);
    } else {
        let e0 = es[0];
        let rest = es.drop_first();
        assert(es =~= seq![e0] + rest);
        lemma_render_entries_concat(seq![e0], rest);
        assert(seq![e0].drop_last() =~= Seq::<EntryV>::empty());
        assert(render_entries(Seq::<EntryV>::empty()) =~= Seq::<char>::empty());
        assert(render_entries(seq![e0]) =~= render_entry(e0));
        let line = e0.key + seq![' ', '=', ' '] + e0.value;
        assert(" = "@ =~= seq![' ', '=', ' ']);
        assert("\n"@ =~= seq!['\n']);
        let full = render_entries(es) + t;
        let y = render_entries(rest) + t;
        let x = line + seq!['\n'];
        assert(full =~= x + y);
        assert forall|j: int| 0 <= j < line.len() implies full[j] != '\n' by {
            if j < e0.key.len() {
                assert(full[j] == e0.key[j]);
            } else if j < e0.key.len() + 3 {
                assert(full[j] == seq![' ', '=', ' '][j - e0.key.len()]);
            } else {
                assert(full[j] == e0.value[j - e0.key.len() - 3]);
            }
        }
        assert(full[line.len() as int] == '\n');
        lemma_find_from_is(full, 0, line.len() as int, '\n');
        assert(full.subrange(0, line.len() as int) =~= line);
        lemma_entry_line(e0.key, e0.value);
        assert(classify_line(line) == LineClass::Pair(e0.key, e0.value));
        let sec2 = SectionV {
            name: sec.name,
            entries: sec.entries.push(EntryV { key: e0.key, value: e0.value }),
        };
        assert(spec_parse_ini_from(full, 0, done, Some(sec)) == spec_parse_ini_from(
            full,
            line.len() as int + 1,
            done,
            Some(sec2),
        ));
        lemma_parse_shift(x, y, 0, done, Some(sec2));
        assert(spec_parse_ini_from(full, line.len() as int + 1, done, Some(sec2))
            == spec_parse_ini_from(y, 0, done, Some(sec2)));
        lemma_parse_entries(rest, t, done, sec2);
        assert(sec2.entries + rest =~= sec.entries + es);
        assert(SectionV { name: sec2.name, entries: sec2.entries + rest } =~= SectionV {
            name: sec.name,
            entries: sec.entries + es,
        });
    }
}

/// Parsing rendered sections appends exactly those sections after the
/// state already accumulated.
#[verifier::rlimit(60)]
proof fn lemma_parse_sections(ss: Seq<SectionV>, done: Seq<SectionV>, cur: Option<SectionV>)
    requires
        wf_sections(ss),
    ensures
        spec_parse_ini_from(render_sections(ss), 0, done, cur) == Some(seal(done, cur) + ss),
    decreases ss.len(),
{
    reveal_strlit("[");
    reveal_strlit("]\n");
    if ss.len() == 0 {
        assert(render_sections(ss) =~= Seq::<char>::empty());
        assert(seal(done, cur) + ss =~= seal(done, cur));
    } else {
        let s0 = ss[0];
        assert(wf_section(s0));
        let rest = ss.drop_first();
        assert(ss =~= seq![s0] + rest);
        lemma_render_sections_concat(seq![s0], rest);
        assert(seq![s0].drop_last() =~= Seq::<SectionV>::empty());
        assert(render_sections(Seq::<SectionV>::empty()) =~= Seq::<char>::empty());
        assert(render_sections(seq![s0]) =~= render_section(s0));
        let line = seq!['['] + s0.name + seq![']'];
        let full = render_sections(ss);
        let x = line + seq!['\n'];
        let y = render_entries(s0.entries) + render_sections(rest);
        assert("["@ =~= seq!['[']);
        assert("]\n"@ =~= seq![']', '\n']);
        assert(full =~= x + y);
        assert forall|j: int| 0 <= j < line.len() implies full[j] != '\n' by {
            if j == 0 {
                assert(full[j] == '[');
            } else if j <= s0.name.len() {
                assert(full[j] == s0.name[j - 1]);
            } else {
                assert(full[j] == ']');
            }
        }
        assert(full[line.len() as int] == '\n');
        lemma_find_from_is(full, 0, line.len() as int, '\n');
        assert(full.subrange(0, line.len() as int) =~= line);
        lemma_header_line(s0.name);
        assert(classify_line(line) == LineClass::Header(s0.name));
        let opened = SectionV { name: s0.name, entries: Seq::empty() };
        assert(spec_parse_ini_from(full, 0, done, cur) == spec_parse_ini_from(
            full,
            line.len() as int + 1,
            seal(done, cur),
            Some(opened),
        ));
        lemma_parse_shift(x, y, 0, seal(done, cur), Some(opened));
        lemma_parse_entries(s0.entries, render_sections(rest), seal(done, cur), opened);
        assert(opened.entries + s0.entries =~= s0.entries);
        assert(SectionV { name: opened.name, entries: opened.entries + s0.entries } =~= s0);
        lemma_parse_sections(rest, seal(done, cur), Some(s0));
        assert(seal(seal(done, cur), Some(s0)) + rest =~= seal(done, cur) + ss);
    }
}

/// THE ROUND TRIP: a well-formed in-memory credentials file, rendered by
/// `save` and read back by `load`, parses successfully and comes back
/// exactly as it was.
pub proof fn lemma_save_load_round_trip(ss: Seq<SectionV>)
    requires
        wf_sections(ss),
    ensures
        spec_parse_ini(render_sections(ss)) == Some(ss),
{
    lemma_parse_sections(ss, Seq::empty(), None);
    assert(seal(Seq::empty(), None) + ss =~= ss);
}

/// Removing a profile never breaks well-formedness.
proof fn lemma_remove_profile_wf(ss: Seq<SectionV>, name: Seq<char>)
    requires
        wf_sections(ss),
    ensures
        wf_sections(remove_profile(ss, name)),
    decreases ss.len(),
{
    if ss.len() > 0 {
        assert(wf_sections(ss.drop_last()));
        lemma_remove_profile_wf(ss.drop_last(), name);
        let rest = remove_profile(ss.drop_last(), name);
        if ss.last().name != name {
            assert(wf_section(ss.last()));
            assert forall|i: int| 0 <= i < rest.push(ss.last()).len() implies wf_section(
                #[trigger] rest.push(ss.last())[i],
            ) by {
                if i < rest.len() {
                    assert(rest.push(ss.last())[i] == rest[i]);
                }
            }
        }
    }
}

/// The section that a replacement writes is well-formed whenever the
/// profile name and the three credential strings are.
proof fn lemma_credential_section_wf(profile: Seq<char>, c: CredentialsV)
    requires
        wf_name(profile),
        wf_text(c.access_key_id),
        wf_text(c.secret_access_key),
        wf_text(c.session_token),
    ensures
        wf_section(credential_section(profile, c)),
{
    reveal_strlit("aws_access_key_id");
    reveal_strlit("aws_secret_access_key");
    reveal_strlit("aws_session_token");
    assert(wf_key("aws_access_key_id"@));
    assert(wf_key("aws_secret_access_key"@));
    assert(wf_key("aws_session_token"@));
    let es = credential_section(profile, c).entries;
    assert forall|i: int| 0 <= i < es.len() implies wf_entry(#[trigger] es[i]) by {
        assert(es.len() == 3);
    }
}

/// THE FULL LAW: replace a profile in a well-formed file, render it, and
/// read it back — the reloaded file is exactly the replaced one, whose
/// shape `lemma_set_credentials_replaces` pins down: the target profile
/// holds exactly the three keys of the new credentials and nothing else,
/// and every other section is untouched, in order.
pub proof fn lemma_update_round_trip(ss: Seq<SectionV>, profile: Seq<char>, c: CredentialsV)
    requires
        wf_sections(ss),
        wf_name(profile),
        wf_text(c.access_key_id),
        wf_text(c.secret_access_key),
        wf_text(c.session_token),
    ensures
        spec_parse_ini(render_sections(spec_set_credentials(ss, profile, c))) == Some(
            spec_set_credentials(ss, profile, c),
        ),
{
    lemma_remove_profile_wf(ss, profile);
    lemma_credential_section_wf(profile, c);
    let kept = remove_profile(ss, profile);
    let updated = spec_set_credentials(ss, profile, c);
    assert forall|i: int| 0 <= i < updated.len() implies wf_section(#[trigger] updated[i]) by {
        if i < kept.len() {
            assert(updated[i] == kept[i]);
        } else {
            assert(updated[i] == credential_section(profile, c));
        }
    }
    lemma_save_load_round_trip(updated);
}

} // verus!
