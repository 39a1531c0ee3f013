//! The on-disk form of the auto-hide pattern list: one pattern per
//! line, surrounding whitespace trimmed, blank lines ignored.

use vstd::prelude::*;

verus! {

/// Whitespace trimmed from pattern lines.
pub open spec fn is_line_ws(c: char) -> bool {
    c == ' ' || c == '\t' || c == '\r'
}

/// A line with its leading whitespace removed.
pub open spec fn trim_front(s: Seq<char>) -> Seq<char>
    decreases s.len(),
{
    if s.len() > 0 && is_line_ws(s[0]) {
        trim_front(s.drop_first())
    } else {
        s
    }
}

/// A line with its trailing whitespace removed.
pub open spec fn trim_back(s: Seq<char>) -> Seq<char>
    decreases s.len(),
{
    if s.len() > 0 && is_line_ws(s.last()) {
        trim_back(s.drop_last())
    } else {
        s
    }
}

/// A line with surrounding whitespace removed.
pub open spec fn trimmed(s: Seq<char>) -> Seq<char> {
    trim_back(trim_front(s))
}

/// The index of the first line break, or the length when there is none.
pub open spec fn first_nl(s: Seq<char>) -> nat
    decreases s.len(),
{
    if s.len() == 0 {
        0
    } else if s[0] == '\n' {
        0
    } else {
        1 + first_nl(s.drop_first())
    }
}

/// `first_nl` finds the first line break.
pub proof fn lemma_first_nl(s: Seq<char>)
    ensures
        first_nl(s) <= s.len(),
        first_nl(s) < s.len() ==> s[first_nl(s) as int] == '\n',
        forall|i: int| 0 <= i < first_nl(s) ==> s[i] != '\n',
    decreases s.len(),
{
    if s.len() > 0 && s[0] != '\n' {
        lemma_first_nl(s.drop_first());
        assert forall|i: int| 0 <= i < first_nl(s) implies s[i] != '\n' by {
            if i > 0 {
                assert(s.drop_first()[i - 1] == s[i]);
            }
        }
        if first_nl(s) < s.len() {
            assert(s.drop_first()[first_nl(s.drop_first()) as int] == s[first_nl(s) as int]);
        }
    }
}

/// One line's contribution to the pattern list: its trimmed text, or
/// nothing for a blank line.
pub open spec fn line_patterns(line: Seq<char>) -> Seq<Seq<char>> {
    if trimmed(line).len() > 0 {
        seq![trimmed(line)]
    } else {
        Seq::empty()
    }
}

/// The patterns stored in a list file: its lines, trimmed, blank lines
/// dropped, in order.
pub open spec fn patterns_spec(s: Seq<char>) -> Seq<Seq<char>>
    decreases s.len(),
{
    let i = first_nl(s);
    if i >= s.len() {
        line_patterns(s)
    } else {
        line_patterns(s.take(i as int)) + patterns_spec(s.skip(i as int + 1))
    }
}

/// The views of a vector of strings.
pub open spec fn views_of(v: Seq<String>) -> Seq<Seq<char>> {
    Seq::new(v.len(), |i: int| v[i]@)
}

/// Whether one character is line whitespace.
fn is_ws_char(c: char) -> (r: bool)
    ensures
        r == is_line_ws(c),
{
    c == ' ' || c == '\t' || c == '\r'
}

/// Removes the surrounding whitespace of one line.
fn trim_str(s: &str) -> (r: String)
    ensures
        r@ == trimmed(s@),
{
    let n = s.unicode_len();
    let mut a: usize = 0;
    proof {
        assert(s@.skip(0) =~= s@);
    }
    while a < n && is_ws_char(s.get_char(a))
        invariant
            n == s@.len(),
            0 <= a <= n,
            trim_front(s@) == trim_front(s@.skip(a as int)),
        decreases n - a,
    {
        proof {
            assert(s@.skip(a as int)[0] == s@[a as int]);
            assert(s@.skip(a as int).drop_first() =~= s@.skip(a as int + 1));
        }
        a = a + 1;
    }
    proof {
        if a < n {
            assert(s@.skip(a as int)[0] == s@[a as int]);
        }
        assert(trim_front(s@) == s@.skip(a as int));
    }
    let mut b: usize = n;
    proof {
        assert(s@.subrange(a as int, n as int) =~= s@.skip(a as int));
    }
    while b > a && is_ws_char(s.get_char(b - 1))
        invariant
            n == s@.len(),
            0 <= a <= b <= n,
            trim_back(s@.skip(a as int)) == trim_back(s@.subrange(a as int, b as int)),
        decreases b,
    {
        proof {
            let seg = s@.subrange(a as int, b as int);
            assert(seg.last() == s@[b - 1]);
            assert(seg.drop_last() =~= s@.subrange(a as int, b as int - 1));
        }
        b = b - 1;
    }
    proof {
        let seg = s@.subrange(a as int, b as int);
        if b > a {
            assert(seg.last() == s@[b - 1]);
        }
        assert(trim_back(seg) == seg);
    }
    let r = s.substring_char(a, b);
    proof {
        assert(r@ =~= s@.subrange(a as int, b as int));
    }
    String::from_str(r)
}

/// Parses a pattern-list file: one pattern per line, trimmed, blank
/// lines ignored.
pub fn parse_pattern_list(content: &str) -> (r: Vec<String>)
    ensures
        views_of(r@) == patterns_spec(content@),
    decreases content@.len(),
{
    let n = content.unicode_len();
    let mut i: usize = 0;
    while i < n && content.get_char(i) != '\n'
        invariant
            n == content@.len(),
            0 <= i <= n,
            forall|k: int| 0 <= k < i ==> content@[k] != '\n',
        decreases n - i,
    {
        i = i + 1;
    }
    proof {
        lemma_first_nl(content@);
        let fd = first_nl(content@);
        if fd < i {
            assert(content@[fd as int] != '\n');
        }
        if i < fd {
            assert(content@[i as int] != '\n');
        }
        assert(i == fd);
    }
    if i == n {
        let head = trim_str(content);
        let mut r: Vec<String> = Vec::new();
        if !head.as_str().is_empty() {
            r.push(head);
        }
        proof {
            assert(content@.take(n as int) =~= content@);
            assert(views_of(r@) =~= patterns_spec(content@));
        }
        r
    } else {
        let head_str = content.substring_char(0, i);
        let head = trim_str(head_str);
        let tail_str = content.substring_char(i + 1, n);
        let mut rest = parse_pattern_list(tail_str);
        let mut r: Vec<String> = Vec::new();
        if !head.as_str().is_empty() {
            r.push(head);
        }
        r.append(&mut rest);
        proof {
            assert(head_str@ =~= content@.take(i as int));
            assert(tail_str@ =~= content@.skip(i as int + 1));
            assert(views_of(r@) =~= patterns_spec(content@));
        }
        r
    }
}

/// The stored text for a pattern list: the patterns joined by line
/// breaks.
pub open spec fn joined(ps: Seq<Seq<char>>) -> Seq<char>
    decreases ps.len(),
{
    if ps.len() == 0 {
        Seq::empty()
    } else if ps.len() == 1 {
        ps[0]
    } else {
        joined(ps.drop_last()) + seq!['\n'] + ps.last()
    }
}

/// Renders a pattern list for storage, one pattern per line.
pub fn render_pattern_list(list: &Vec<String>) -> (r: String)
    ensures
        r@ == joined(views_of(list@)),
{
    let mut r = String::new();
    let n = list.len();
    let nl = "\n";
    proof {
        reveal_strlit("\n");
        assert(nl@ =~= seq!['\n']);
    }
    let mut i: usize = 0;
    while i < n
        invariant
            n == list@.len(),
            0 <= i <= n,
            nl@ == seq!['\n'],
            r@ == joined(views_of(list@).take(i as int)),
        decreases n - i,
    {
        if i > 0 {
            r.append(nl);
        }
        r.append(list[i].as_str());
        proof {
            let vs = views_of(list@);
            assert(vs.take(i as int + 1).drop_last() =~= vs.take(i as int));
            assert(vs.take(i as int + 1).last() == vs[i as int]);
            if i == 0 {
                assert(r@ =~= joined(vs.take(i as int + 1)));
            } else {
                assert(r@ =~= joined(vs.take(i as int + 1)));
            }
        }
        i = i + 1;
    }
    proof {
        assert(views_of(list@).take(n as int) =~= views_of(list@));
    }
    r
}

} // verus!
