//! The callback payload codec. Menu state lives in the round-tripped
//! button payloads, so their shape is bit-exact: `wave_<name>` selects a
//! wave, `member_<first> <last> wave_<name>` toggles a member and
//! remembers the wave to re-render, `member_back wave_none` returns to
//! the wave menu.
use vstd::prelude::*;
use crate::markup::{member_callback_spec, wave_callback_spec};
use crate::text::str_eq;
use crate::vtuber::Vtuber;

verus! {

/// `pat` occurs in `s` starting at position `i`.
pub open spec fn occurs_at(s: Seq<char>, pat: Seq<char>, i: int) -> bool {
    0 <= i && i + pat.len() <= s.len() && s.subrange(i, i + pat.len()) == pat
}

/// The first position at or after `i` where `pat` occurs in `s`.
pub open spec fn find_from(s: Seq<char>, pat: Seq<char>, i: int) -> Option<int>
    decreases s.len() - i + 1,
{
    if i < 0 || i + pat.len() > s.len() {
        None
    } else if occurs_at(s, pat, i) {
        Some(i)
    } else {
        find_from(s, pat, i + 1)
    }
}

/// Splitting at the first occurrence of `pat`: the text before it and the
/// text after it, when it occurs at all.
pub open spec fn split_once_spec(s: Seq<char>, pat: Seq<char>) -> Option<(Seq<char>, Seq<char>)> {
    match find_from(s, pat, 0) {
        Some(i) => Some((s.subrange(0, i), s.subrange(i + pat.len(), s.len() as int))),
        None => None,
    }
}

/// The text after `pat`, when `s` starts with `pat`.
pub open spec fn strip_prefix_spec(s: Seq<char>, pat: Seq<char>) -> Option<Seq<char>> {
    if occurs_at(s, pat, 0) {
        Some(s.subrange(pat.len() as int, s.len() as int))
    } else {
        None
    }
}

/// The member part and wave part of a member payload, when it has the
/// `member_` prefix and the ` wave_` separator.
pub open spec fn member_split_spec(s: Seq<char>) -> Option<(Seq<char>, Seq<char>)> {
    match strip_prefix_spec(s, "member_"@) {
        Some(rest) => split_once_spec(rest, " wave_"@),
        None => None,
    }
}

fn occurs_at_exec(s: &str, pat: &str, i: usize) -> (r: bool)
    ensures
        r == occurs_at(s@, pat@, i as int),
{
    let s_len = s.unicode_len();
    let pat_len = pat.unicode_len();
    if i > s_len || pat_len > s_len - i {
        return false;
    }
    let mut j: usize = 0;
    while j < pat_len
        invariant
            j <= pat_len,
            pat_len == pat@.len(),
            s_len == s@.len(),
            i + pat_len <= s_len,
            forall|k: int| 0 <= k < j ==> s@[i + k] == pat@[k],
        decreases pat_len - j,
    {
        if s.get_char(i + j) != pat.get_char(j) {
            proof {
                assert(s@.subrange(i as int, i + pat@.len())[j as int] == s@[i + j]);
            }
            return false;
        }
        j = j + 1;
    }
    proof {
        assert(s@.subrange(i as int, i + pat@.len()) =~= pat@);
    }
    true
}

/// A found position is a real occurrence.
proof fn lemma_find_from_occurs(s: Seq<char>, pat: Seq<char>, i: int, j: int)
    requires
        find_from(s, pat, i) == Some(j),
    ensures
        i <= j,
        occurs_at(s, pat, j),
    decreases s.len() - i + 1,
{
    if i < 0 || i + pat.len() > s.len() {
    } else if occurs_at(s, pat, i) {
    } else {
        lemma_find_from_occurs(s, pat, i + 1, j);
    }
}

fn find_sub(s: &str, pat: &str) -> (r: Option<usize>)
    ensures
        match r {
            Some(i) => find_from(s@, pat@, 0) == Some(i as int),
            None => find_from(s@, pat@, 0) is None,
        },
{
    let s_len = s.unicode_len();
    let pat_len = pat.unicode_len();
    if pat_len > s_len {
        return None;
    }
    if pat_len == 0 {
        proof {
            assert(s@.subrange(0, 0) =~= pat@);
            assert(occurs_at(s@, pat@, 0));
        }
        return Some(0);
    }
    let bound = s_len - pat_len;
    let mut i: usize = 0;
    while i <= bound
        invariant
            pat_len == pat@.len(),
            s_len == s@.len(),
            1 <= pat_len <= s_len,
            bound == s_len - pat_len,
            i <= bound + 1,
            find_from(s@, pat@, 0) == find_from(s@, pat@, i as int),
        decreases bound + 1 - i,
    {
        if occurs_at_exec(s, pat, i) {
            proof {
                assert(find_from(s@, pat@, i as int) == Some(i as int));
            }
            return Some(i);
        }
        proof {
            assert(find_from(s@, pat@, i as int) == find_from(s@, pat@, i + 1));
        }
        i = i + 1;
    }
    proof {
        assert(find_from(s@, pat@, i as int) is None);
    }
    None
}

fn strip_prefix_exec(s: &str, pat: &str) -> (r: Option<String>)
    ensures
        match r {
            Some(rest) => strip_prefix_spec(s@, pat@) == Some(rest@),
            None => strip_prefix_spec(s@, pat@) is None,
        },
{
    if occurs_at_exec(s, pat, 0) {
        let rest = s.substring_char(pat.unicode_len(), s.unicode_len());
        Some(rest.to_owned())
    } else {
        None
    }
}

/// Parses a wave payload: the wave name after the `wave_` prefix.
pub fn parse_wave_callback(data: &str) -> (r: Option<String>)
    ensures
        match r {
            Some(name) => strip_prefix_spec(data@, "wave_"@) == Some(name@),
            None => strip_prefix_spec(data@, "wave_"@) is None,
        },
{
    strip_prefix_exec(data, "wave_")
}

/// What a member payload asks for: going back to the wave menu, or
/// toggling one member and re-rendering that member's wave.
pub enum MemberAction {
    Back,
    Toggle { first_name: String, last_name: String, wave_name: String },
}

/// Parses a member payload exactly as the selection machine reads it:
/// strip `member_`, split at the first ` wave_`, treat the member part
/// `back` as the back action, and otherwise split the member part at its
/// first space into first and last name. Anything else is malformed.
pub fn parse_member_callback(data: &str) -> (r: Option<MemberAction>)
    ensures
        member_split_spec(data@) is None ==> r is None,
        forall|m: Seq<char>, w: Seq<char>|
            member_split_spec(data@) == Some((m, w)) && m == "back"@ ==> r == Some(
                MemberAction::Back,
            ),
        forall|m: Seq<char>, w: Seq<char>|
            member_split_spec(data@) == Some((m, w)) && m != "back"@ && split_once_spec(m, " "@)
                is None ==> r is None,
        forall|m: Seq<char>, w: Seq<char>, f: Seq<char>, l: Seq<char>|
            member_split_spec(data@) == Some((m, w)) && m != "back"@ && split_once_spec(m, " "@)
                == Some((f, l)) ==> (match r {
                Some(a) => a matches MemberAction::Toggle { first_name, last_name, wave_name }
                    && first_name@ == f && last_name@ == l && wave_name@ == w,
                None => false,
            }),
{
    let rest = match strip_prefix_exec(data, "member_") {
        Some(rest) => rest,
        None => {
            return None;
        },
    };
    let sep = match find_sub(rest.as_str(), " wave_") {
        Some(i) => i,
        None => {
            return None;
        },
    };
    proof {
        reveal_strlit(" wave_");
        lemma_find_from_occurs(rest@, " wave_"@, 0, sep as int);
    }
    let rest_len = rest.as_str().unicode_len();
    let member_part = rest.as_str().substring_char(0, sep);
    let wave_part = rest.as_str().substring_char(sep + 6, rest_len);
    if str_eq(member_part, "back") {
        Some(MemberAction::Back)
    } else {
        let space = match find_sub(member_part, " ") {
            Some(i) => i,
            None => {
                return None;
            },
        };
        proof {
            reveal_strlit(" ");
            lemma_find_from_occurs(member_part@, " "@, 0, space as int);
        }
        let member_len = member_part.unicode_len();
        let first = member_part.substring_char(0, space);
        let last = member_part.substring_char(space + 1, member_len);
        Some(
            MemberAction::Toggle {
                first_name: first.to_owned(),
                last_name: last.to_owned(),
                wave_name: wave_part.to_owned(),
            },
        )
    }
}


/// The first occurrence before which none exists is what the search
/// finds.
proof fn lemma_find_from_from(s: Seq<char>, pat: Seq<char>, i: int, b: int)
    requires
        0 <= i <= b,
        occurs_at(s, pat, b),
        forall|p: int| i <= p < b ==> !occurs_at(s, pat, p),
    ensures
        find_from(s, pat, i) == Some(b),
    decreases b - i,
{
    if i == b {
    } else {
        assert(!occurs_at(s, pat, i));
        lemma_find_from_from(s, pat, i + 1, b);
    }
}

/// A wave payload built for a name parses back to exactly that name: the
/// payload round-trips through the transport bit-exactly.
pub proof fn lemma_wave_payload_round_trip(name: Seq<char>)
    ensures
        strip_prefix_spec(wave_callback_spec(name), "wave_"@) == Some(name),
{
    reveal_strlit("wave_");
    let s = wave_callback_spec(name);
    assert(s.subrange(0, 5) =~= "wave_"@);
    assert(occurs_at(s, "wave_"@, 0));
    assert(s.subrange(5, s.len() as int) =~= name);
}

/// A member payload built for a roster creator parses back to exactly
/// that creator's toggle action, provided the names avoid the payload
/// grammar's separators: the first and last name hold no space, and the
/// last name does not begin with `wave_`. A creator violating that (for
/// example a last name `wave_x`) would be cut at the wrong place, which
/// is why the statement leaves such names out.
pub proof fn lemma_member_payload_round_trip(v: Vtuber)
    requires
        forall|i: int| 0 <= i < v.first_name@.len() ==> v.first_name@[i] != ' ',
        forall|i: int| 0 <= i < v.last_name@.len() ==> v.last_name@[i] != ' ',
        v.last_name@.len() < 5 || v.last_name@.subrange(0, 5) != "wave_"@,
    ensures
        member_split_spec(member_callback_spec(v)) == Some(
            (v.first_name@ + " "@ + v.last_name@, v.wave_name@),
        ),
        v.first_name@ + " "@ + v.last_name@ != "back"@,
        split_once_spec(v.first_name@ + " "@ + v.last_name@, " "@) == Some(
            (v.first_name@, v.last_name@),
        ),
{
    reveal_strlit("member_");
    reveal_strlit(" wave_");
    reveal_strlit("wave_");
    reveal_strlit(" ");
    reveal_strlit("back");
    let f = v.first_name@;
    let l = v.last_name@;
    let w = v.wave_name@;
    let enc = member_callback_spec(v);
    let rest = f + " "@ + l + " wave_"@ + w;
    assert(enc =~= "member_"@ + rest);
    // The prefix strips off.
    assert(enc.subrange(0, 7) =~= "member_"@);
    assert(occurs_at(enc, "member_"@, 0));
    assert(enc.subrange(7, enc.len() as int) =~= rest);
    assert(strip_prefix_spec(enc, "member_"@) == Some(rest));
    // The separator's first occurrence is right after the two names.
    let b = f.len() + 1 + l.len();
    assert(rest.subrange(b as int, b as int + 6) =~= " wave_"@);
    assert(occurs_at(rest, " wave_"@, b as int));
    assert forall|p: int| 0 <= p < b implies !occurs_at(rest, " wave_"@, p) by {
        if occurs_at(rest, " wave_"@, p) {
            assert(rest.subrange(p, p + 6)[0] == rest[p]);
            assert(rest[p] == ' ');
            if p < f.len() {
                assert(rest[p] == f[p]);
                assert(false);
            } else if p == f.len() {
                if l.len() >= 5 {
                    assert forall|k: int| 0 <= k < 5 implies l[k] == "wave_"@[k] by {
                        assert(rest.subrange(p, p + 6)[k + 1] == rest[p + 1 + k]);
                        assert(rest[p + 1 + k] == l[k]);
                    }
                    assert(l.subrange(0, 5) =~= "wave_"@);
                    assert(false);
                } else {
                    let k = l.len() as int;
                    assert(rest.subrange(p, p + 6)[k + 1] == rest[p + 1 + k]);
                    assert(rest[p + 1 + k] == ' ');
                    assert(" wave_"@[k + 1] != ' ');
                    assert(false);
                }
            } else {
                assert(rest[p] == l[p - f.len() - 1]);
                assert(false);
            }
        }
    }
    lemma_find_from_from(rest, " wave_"@, 0, b as int);
    let m = f + " "@ + l;
    assert(rest.subrange(0, b as int) =~= m);
    assert(rest.subrange(b + 6 as int, rest.len() as int) =~= w);
    assert(member_split_spec(enc) == Some((m, w)));
    // The member part cannot read as the back action: it has a space.
    assert(m[f.len() as int] == ' ');
    if m == "back"@ {
        assert(m.len() == 4);
        assert(m[f.len() as int] != ' ');
        assert(false);
    }
    // The member part splits at the space between the names.
    assert(m.subrange(f.len() as int, f.len() as int + 1) =~= " "@);
    assert(occurs_at(m, " "@, f.len() as int));
    assert forall|p: int| 0 <= p < f.len() implies !occurs_at(m, " "@, p) by {
        if occurs_at(m, " "@, p) {
            assert(m.subrange(p, p + 1)[0] == m[p]);
            assert(m[p] == f[p]);
            assert(false);
        }
    }
    lemma_find_from_from(m, " "@, 0, f.len() as int);
    assert(m.subrange(0, f.len() as int) =~= f);
    assert(m.subrange(f.len() as int + 1, m.len() as int) =~= l);
}

} // verus!
