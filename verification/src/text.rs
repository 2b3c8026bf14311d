//! Character-level text utilities: string equality, whitespace tests,
//! and splitting a path into `/`-separated segments.

use vstd::prelude::*;
use vstd::string::StrSliceExecFns;
use vstd::string::StringExecFns;

verus! {

/// Compares two string slices character by character.
pub fn str_eq(a: &str, b: &str) -> (r: bool)
    ensures
        r == (a@ == b@),
{
    let n = a.unicode_len();
    if n != b.unicode_len() {
        return false;
    }
    let mut i: usize = 0;
    while i < n
        invariant
            n == a@.len(),
            n == b@.len(),
            i <= n,
            forall|j: int| 0 <= j < i ==> a@[j] == b@[j],
        decreases n - i,
    {
        if a.get_char(i) != b.get_char(i) {
            return false;
        }
        i += 1;
    }
    proof {
        assert(a@ =~= b@);
    }
    true
}

/// Whether `c` carries the Unicode `White_Space` property, the set of
/// characters that `str::trim` removes.
pub open spec fn is_ws_char(c: char) -> bool {
    let u = c as u32;
    u == 0x09 || u == 0x0A || u == 0x0B || u == 0x0C || u == 0x0D || u == 0x20 || u == 0x85
        || u == 0xA0 || u == 0x1680 || (0x2000 <= u && u <= 0x200A) || u == 0x2028 || u == 0x2029
        || u == 0x202F || u == 0x205F || u == 0x3000
}

/// Whether `s` trims to the empty string: every character is whitespace.
pub open spec fn trims_empty(s: Seq<char>) -> bool {
    forall|i: int| 0 <= i < s.len() ==> is_ws_char(#[trigger] s[i])
}

fn is_ws_char_exec(c: char) -> (r: bool)
    ensures
        r == is_ws_char(c),
{
    let u = c as u32;
    u == 0x09 || u == 0x0A || u == 0x0B || u == 0x0C || u == 0x0D || u == 0x20 || u == 0x85
        || u == 0xA0 || u == 0x1680 || (0x2000 <= u && u <= 0x200A) || u == 0x2028 || u == 0x2029
        || u == 0x202F || u == 0x205F || u == 0x3000
}

/// Whether `s` consists of whitespace alone (and so trims to empty).
pub fn all_whitespace(s: &str) -> (r: bool)
    ensures
        r == trims_empty(s@),
{
    let n = s.unicode_len();
    let mut i: usize = 0;
    while i < n
        invariant
            n == s@.len(),
            i <= n,
            forall|j: int| 0 <= j < i ==> is_ws_char(#[trigger] s@[j]),
        decreases n - i,
    {
        if !is_ws_char_exec(s.get_char(i)) {
            return false;
        }
        i += 1;
    }
    true
}

/// The segments of `s` split on `/`, exactly as `str::split` yields them:
/// one segment more than there are separators, empty segments kept.
pub open spec fn split_model(s: Seq<char>) -> Seq<Seq<char>>
    decreases s.len(),
{
    if s.len() == 0 {
        seq![Seq::<char>::empty()]
    } else if s[0] == '/' {
        seq![Seq::<char>::empty()] + split_model(s.drop_first())
    } else {
        let rest = split_model(s.drop_first());
        seq![seq![s[0]] + rest[0]] + rest.drop_first()
    }
}

/// Splitting always yields at least one segment.
pub proof fn lemma_split_len(s: Seq<char>)
    ensures
        split_model(s).len() >= 1,
    decreases s.len(),
{
    if s.len() != 0 && s[0] != '/' {
        lemma_split_len(s.drop_first());
    }
}

/// A string that begins with `/` splits into at least two segments, the
/// first of them empty.
pub proof fn lemma_split_leading_slash(s: Seq<char>)
    requires
        s.len() > 0,
        s[0] == '/',
    ensures
        split_model(s).len() >= 2,
        split_model(s)[0] == Seq::<char>::empty(),
{
    lemma_split_len(s.drop_first());
}

/// Unfolds `split_model` at a sequence given as head and tail.
proof fn lemma_split_cons(c: char, t: Seq<char>)
    ensures
        c == '/' ==> split_model(seq![c] + t) == seq![Seq::<char>::empty()] + split_model(t),
        c != '/' ==> split_model(seq![c] + t) == seq![seq![c] + split_model(t)[0]] + split_model(
            t,
        ).drop_first(),
{
    let s = seq![c] + t;
    assert(s.drop_first() =~= t);
}

/// The views of a vector of owned segments.
pub open spec fn seg_views(v: Seq<String>) -> Seq<Seq<char>> {
    v.map_values(|x: String| x@)
}

/// How an unfinished segment `p` extends the front of the segments `ss`
/// still to come: a scan that has copied `p` and has the characters of a
/// suffix left will produce `p` glued to the suffix's first segment,
/// then the suffix's remaining segments.
spec fn extend_front(p: Seq<char>, ss: Seq<Seq<char>>) -> Seq<Seq<char>> {
    seq![p + ss[0]] + ss.drop_first()
}

/// Splits `s` on `/`, keeping empty segments, as `str::split('/')` does.
pub fn split_slash(s: &str) -> (segs: Vec<String>)
    ensures
        seg_views(segs@) == split_model(s@),
{
    let n = s.unicode_len();
    let mut segs: Vec<String> = Vec::new();
    let mut cur = String::new();
    let mut i: usize = 0;
    proof {
        lemma_split_len(s@);
        assert(s@.skip(0) =~= s@);
        assert(extend_front(cur@, split_model(s@)) =~= split_model(s@));
        assert(seg_views(segs@) + extend_front(cur@, split_model(s@.skip(0))) =~~= split_model(
            s@,
        ));
    }
    while i < n
        invariant
            n == s@.len(),
            i <= n,
            seg_views(segs@) + extend_front(cur@, split_model(s@.skip(i as int))) =~~= split_model(
                s@,
            ),
        decreases n - i,
    {
        let ghost tail = s@.skip(i as int + 1);
        proof {
            lemma_split_cons(s@[i as int], tail);
            lemma_split_len(tail);
            assert(s@.skip(i as int) =~= seq![s@[i as int]] + tail);
        }
        let c = s.get_char(i);
        if c == '/' {
            let ghost segs_before = segs@;
            let ghost cur_before = cur@;
            segs.push(cur);
            cur = String::new();
            proof {
                assert(seg_views(segs@) =~= seg_views(segs_before) + seq![cur_before]);
                assert(extend_front(cur_before, split_model(s@.skip(i as int))) =~~= seq![
                    cur_before,
                ] + extend_front(cur@, split_model(tail)));
            }
        } else {
            let piece = s.substring_char(i, i + 1);
            proof {
                assert(piece@ =~= seq![s@[i as int]]);
                assert(extend_front(cur@ + piece@, split_model(tail)) =~~= extend_front(
                    cur@,
                    split_model(s@.skip(i as int)),
                ));
            }
            cur.append(piece);
        }
        i += 1;
    }
    proof {
        assert(s@.skip(n as int) =~= Seq::<char>::empty());
        assert(extend_front(cur@, split_model(s@.skip(n as int))) =~~= seq![cur@]);
    }
    let ghost segs_before = segs@;
    let ghost cur_before = cur@;
    segs.push(cur);
    proof {
        assert(seg_views(segs@) =~= seg_views(segs_before) + seq![cur_before]);
    }
    segs
}

} // verus!
