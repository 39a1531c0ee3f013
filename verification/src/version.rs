//! Version-tag comparison for the update check: `v`-prefixed,
//! dot-separated numeric tags, compared part by part.

use vstd::prelude::*;
use crate::text::is_dec_digit;

verus! {

/// The numeric value of one digit character.
pub open spec fn digit_val(c: char) -> int {
    c as u32 - 48
}

/// The value of a digit string, most significant digit first.
pub open spec fn dec_val(s: Seq<char>) -> int
    decreases s.len(),
{
    if s.len() == 0 {
        0
    } else {
        10 * dec_val(s.drop_last()) + digit_val(s.last())
    }
}

/// Whether a version component is a plain base-ten number that fits a
/// `u32`.
pub open spec fn component_ok(s: Seq<char>) -> bool {
    &&& s.len() > 0
    &&& forall|i: int| 0 <= i < s.len() ==> is_dec_digit(#[trigger] s[i])
    &&& dec_val(s) <= u32::MAX
}

/// The numeric value a version component contributes: its number, or
/// zero for anything that is not a plain in-range number.
pub open spec fn component_val(s: Seq<char>) -> u32 {
    if component_ok(s) {
        dec_val(s) as u32
    } else {
        0u32
    }
}

/// The value of a digit string is never negative.
pub proof fn lemma_dec_val_nonneg(s: Seq<char>)
    requires
        forall|i: int| 0 <= i < s.len() ==> is_dec_digit(#[trigger] s[i]),
    ensures
        dec_val(s) >= 0,
    decreases s.len(),
{
    if s.len() > 0 {
        lemma_dec_val_nonneg(s.drop_last());
    }
}

/// The index of the first dot, or the length when there is none.
pub open spec fn first_dot(s: Seq<char>) -> nat
    decreases s.len(),
{
    if s.len() == 0 {
        0
    } else if s[0] == '.' {
        0
    } else {
        1 + first_dot(s.drop_first())
    }
}

/// `first_dot` finds the first dot: everything before it is not a dot,
/// and it points at a dot unless there is none.
pub proof fn lemma_first_dot(s: Seq<char>)
    ensures
        first_dot(s) <= s.len(),
        first_dot(s) < s.len() ==> s[first_dot(s) as int] == '.',
        forall|i: int| 0 <= i < first_dot(s) ==> s[i] != '.',
    decreases s.len(),
{
    if s.len() > 0 && s[0] != '.' {
        lemma_first_dot(s.drop_first());
        assert forall|i: int| 0 <= i < first_dot(s) implies s[i] != '.' by {
            if i > 0 {
                assert(s.drop_first()[i - 1] == s[i]);
            }
        }
        if first_dot(s) < s.len() {
            assert(s.drop_first()[first_dot(s.drop_first()) as int] == s[first_dot(s) as int]);
        }
    }
}

/// The dot-separated components of a version string.
pub open spec fn split_dots(s: Seq<char>) -> Seq<Seq<char>>
    decreases s.len(),
{
    let i = first_dot(s);
    if i >= s.len() {
        seq![s]
    } else {
        seq![s.take(i as int)] + split_dots(s.skip(i as int + 1))
    }
}

/// A version string with every leading `v` removed.
pub open spec fn strip_v(s: Seq<char>) -> Seq<char>
    decreases s.len(),
{
    if s.len() > 0 && s[0] == 'v' {
        strip_v(s.drop_first())
    } else {
        s
    }
}

/// The component values of a list of components.
pub open spec fn component_vals(cs: Seq<Seq<char>>) -> Seq<u32> {
    Seq::new(cs.len(), |i: int| component_val(cs[i]))
}

/// The numeric parts of a version tag.
pub open spec fn parts_spec(s: Seq<char>) -> Seq<u32> {
    component_vals(split_dots(strip_v(s)))
}

/// Part-by-part comparison, missing parts counting as zero: whether `b`
/// names a strictly newer version than `a`.
pub open spec fn lex_newer(a: Seq<u32>, b: Seq<u32>) -> bool
    decreases a.len() + b.len(),
{
    if a.len() == 0 && b.len() == 0 {
        false
    } else {
        let ha: u32 = if a.len() > 0 {
            a[0]
        } else {
            0
        };
        let hb: u32 = if b.len() > 0 {
            b[0]
        } else {
            0
        };
        if hb > ha {
            true
        } else if hb < ha {
            false
        } else {
            lex_newer(tail_or_empty(a), tail_or_empty(b))
        }
    }
}

/// The sequence without its first element; empty stays empty.
pub open spec fn tail_or_empty(a: Seq<u32>) -> Seq<u32> {
    if a.len() > 0 {
        a.drop_first()
    } else {
        a
    }
}

/// Whether `new_tag` names a strictly newer version than `current`.
pub open spec fn version_newer(current: Seq<char>, new_tag: Seq<char>) -> bool {
    lex_newer(parts_spec(current), parts_spec(new_tag))
}

/// Parses one version component: its number, or zero when it is not a
/// plain in-range base-ten number.
fn parse_component(s: &str) -> (r: u32)
    ensures
        r == component_val(s@),
{
    let n = s.unicode_len();
    if n == 0 {
        return 0;
    }
    let mut acc: u64 = 0;
    let mut overflow = false;
    let mut i: usize = 0;
    while i < n
        invariant
            n == s@.len(),
            0 <= i <= n,
            forall|k: int| 0 <= k < i ==> is_dec_digit(#[trigger] s@[k]),
            !overflow ==> acc == dec_val(s@.take(i as int)) && acc <= u32::MAX,
            overflow ==> dec_val(s@.take(i as int)) > u32::MAX,
        decreases n - i,
    {
        let c = s.get_char(i);
        let code = c as u32;
        if code < 48 || code > 57 {
            return 0;
        }
        let d = (code - 48) as u64;
        proof {
            assert(s@.take(i + 1).drop_last() =~= s@.take(i as int));
            assert(s@.take(i + 1).last() == s@[i as int]);
            lemma_dec_val_nonneg(s@.take(i as int));
        }
        if !overflow {
            acc = acc * 10 + d;
            if acc > u32::MAX as u64 {
                overflow = true;
            }
        }
        i = i + 1;
    }
    proof {
        assert(s@.take(n as int) =~= s@);
    }
    if overflow {
        0
    } else {
        acc as u32
    }
}

/// Splits a version string into its numeric parts.
fn parse_parts(s: &str) -> (r: Vec<u32>)
    ensures
        r@ == component_vals(split_dots(s@)),
    decreases s@.len(),
{
    let n = s.unicode_len();
    let mut i: usize = 0;
    while i < n && s.get_char(i) != '.'
        invariant
            n == s@.len(),
            0 <= i <= n,
            forall|k: int| 0 <= k < i ==> s@[k] != '.',
        decreases n - i,
    {
        i = i + 1;
    }
    proof {
        lemma_first_dot(s@);
        let fd = first_dot(s@);
        if fd < i {
            assert(s@[fd as int] != '.');
        }
        if i < fd {
            assert(s@[i as int] != '.');
        }
        assert(i == fd);
    }
    if i == n {
        let head = parse_component(s);
        let mut r: Vec<u32> = Vec::new();
        r.push(head);
        proof {
            assert(s@.take(n as int) =~= s@);
            assert(r@ =~= component_vals(split_dots(s@)));
        }
        r
    } else {
        let head_str = s.substring_char(0, i);
        let head = parse_component(head_str);
        let tail_str = s.substring_char(i + 1, n);
        let mut rest = parse_parts(tail_str);
        let mut r: Vec<u32> = Vec::new();
        r.push(head);
        r.append(&mut rest);
        proof {
            assert(head_str@ =~= s@.take(i as int));
            assert(tail_str@ =~= s@.skip(i + 1));
            assert(r@ =~= component_vals(split_dots(s@)));
        }
        r
    }
}

/// Removes every leading `v` from a version tag.
fn strip_v_exec<'a>(s: &'a str) -> (r: &'a str)
    ensures
        r@ == strip_v(s@),
{
    let n = s.unicode_len();
    let mut i: usize = 0;
    proof {
        assert(s@.skip(0) =~= s@);
    }
    while i < n && s.get_char(i) == 'v'
        invariant
            n == s@.len(),
            0 <= i <= n,
            strip_v(s@) == strip_v(s@.skip(i as int)),
            forall|k: int| 0 <= k < i ==> s@[k] == 'v',
        decreases n - i,
    {
        proof {
            assert(s@.skip(i as int)[0] == s@[i as int]);
            assert(s@.skip(i as int).drop_first() =~= s@.skip(i + 1));
        }
        i = i + 1;
    }
    let r = s.substring_char(i, n);
    proof {
        assert(r@ =~= s@.skip(i as int));
        if i < n {
            assert(s@.skip(i as int)[0] == s@[i as int]);
        }
    }
    r
}

/// Whether `new_tag` names a strictly newer version than `current`:
/// both are stripped of leading `v`s, split on dots, and compared part
/// by part, missing or malformed parts counting as zero.
pub fn is_version_newer(current: &str, new_tag: &str) -> (r: bool)
    ensures
        r == version_newer(current@, new_tag@),
{
    let a = parse_parts(strip_v_exec(current));
    let b = parse_parts(strip_v_exec(new_tag));
    let la = a.len();
    let lb = b.len();
    let ghost sa = a@;
    let ghost sb = b@;
    let mut i: usize = 0;
    proof {
        assert(sa == parts_spec(current@));
        assert(sb == parts_spec(new_tag@));
        assert(sa.skip(0) =~= sa);
        assert(sb.skip(0) =~= sb);
    }
    while i < la || i < lb
        invariant
            la == sa.len(),
            lb == sb.len(),
            a@ == sa,
            b@ == sb,
            sa == parts_spec(current@),
            sb == parts_spec(new_tag@),
            0 <= i,
            i <= la || i <= lb,
            lex_newer(sa, sb) == lex_newer(
                sa.skip(if i < la {
                    i as int
                } else {
                    la as int
                }),
                sb.skip(if i < lb {
                    i as int
                } else {
                    lb as int
                }),
            ),
        decreases la + lb - i,
    {
        let ha: u32 = if i < la {
            a[i]
        } else {
            0
        };
        let hb: u32 = if i < lb {
            b[i]
        } else {
            0
        };
        proof {
            let ia: int = if i < la {
                i as int
            } else {
                la as int
            };
            let ib: int = if i < lb {
                i as int
            } else {
                lb as int
            };
            let ta = sa.skip(ia);
            let tb = sb.skip(ib);
            if i < la {
                assert(ta[0] == sa[i as int]);
            } else {
                assert(ta.len() == 0);
            }
            if i < lb {
                assert(tb[0] == sb[i as int]);
            } else {
                assert(tb.len() == 0);
            }
            if hb > ha {
                assert(lex_newer(ta, tb));
            } else if hb < ha {
                assert(!lex_newer(ta, tb));
            }
            assert(tail_or_empty(ta) =~= sa.skip(
                if i + 1 < la {
                    i + 1
                } else {
                    la as int
                },
            ));
            assert(tail_or_empty(tb) =~= sb.skip(
                if i + 1 < lb {
                    i + 1
                } else {
                    lb as int
                },
            ));
        }
        if hb > ha {
            return true;
        }
        if hb < ha {
            return false;
        }
        i = i + 1;
    }
    proof {
        assert(sa.skip(la as int) =~= Seq::<u32>::empty());
        assert(sb.skip(lb as int) =~= Seq::<u32>::empty());
    }
    false
}

/// What one update check concluded.
#[derive(Debug, PartialEq, Eq)]
pub enum UpdateCheck {
    UpdateAvailable(String),
    UpToDate,
    InvalidResponse,
}

/// Judges the update service's answer: no tag at all is an invalid
/// response; a tag is an available update exactly when it names a newer
/// version than the running one.
pub fn evaluate_update_response(current: &str, tag: Option<String>) -> (r: UpdateCheck)
    ensures
        match tag {
            Some(t) => {
                if version_newer(current@, t@) {
                    r == UpdateCheck::UpdateAvailable(t)
                } else {
                    r == UpdateCheck::UpToDate
                }
            },
            None => r == UpdateCheck::InvalidResponse,
        },
{
    match tag {
        Some(t) => {
            if is_version_newer(current, t.as_str()) {
                UpdateCheck::UpdateAvailable(t)
            } else {
                UpdateCheck::UpToDate
            }
        },
        None => UpdateCheck::InvalidResponse,
    }
}

} // verus!
