use vstd::prelude::*;
use vstd::string::StrSliceExecFns;

verus! {

/// The views of a sequence of owned strings.
pub open spec fn seq_views(v: Seq<String>) -> Seq<Seq<char>> {
    v.map_values(|t: String| t@)
}

/// Compares two string slices character by character.
pub fn str_eq(a: &str, b: &str) -> (r: bool)
    ensures
        r == (a@ == b@),
{
    let la = a.unicode_len();
    let lb = b.unicode_len();
    if la != lb {
        return false;
    }
    let mut i: usize = 0;
    while i < la
        invariant
            la as nat == a@.len(),
            la as nat == b@.len(),
            i <= la,
            forall|t: int| 0 <= t < i ==> a@[t] == b@[t],
        decreases la - i,
    {
        if a.get_char(i) != b.get_char(i) {
            assert(a@ != b@);
            return false;
        }
        i += 1;
    }
    proof {
        assert(a@ =~= b@);
    }
    true
}

/// The segments of `s` between occurrences of the separator `sep`, in order.
/// A string with no separator yields one segment; separators at the ends and
/// adjacent separators yield empty segments, exactly as iterating over the
/// standard split of a string does.
pub open spec fn split_seq(s: Seq<char>, sep: char) -> Seq<Seq<char>>
    decreases s.len(),
{
    if s.len() == 0 {
        seq![Seq::<char>::empty()]
    } else if s[0] == sep {
        seq![Seq::<char>::empty()] + split_seq(s.drop_first(), sep)
    } else {
        let r = split_seq(s.drop_first(), sep);
        seq![seq![s[0]] + r[0]] + r.skip(1)
    }
}

pub proof fn lemma_split_seq_nonempty(s: Seq<char>, sep: char)
    ensures
        split_seq(s, sep).len() >= 1,
    decreases s.len(),
{
    if s.len() != 0 {
        lemma_split_seq_nonempty(s.drop_first(), sep);
    }
}

/// The first segment of a split, with `c` prepended to it.
pub open spec fn prepend_first(c: Seq<char>, ss: Seq<Seq<char>>) -> Seq<Seq<char>> {
    seq![c + ss[0]] + ss.skip(1)
}

/// Splits `s` at every occurrence of `sep`.
pub fn split_str(s: &str, sep: char) -> (r: Vec<String>)
    ensures
        seq_views(r@) == split_seq(s@, sep),
{
    let n = s.unicode_len();
    let mut segs: Vec<String> = Vec::new();
    let mut seg_start: usize = 0;
    let mut i: usize = 0;
    proof {
        lemma_split_seq_nonempty(s@, sep);
        let ss = split_seq(s@, sep);
        assert(s@.skip(0) =~= s@);
        assert(s@.subrange(0, 0) =~= Seq::<char>::empty());
        assert(Seq::<char>::empty() + ss[0] =~= ss[0]);
        assert(prepend_first(Seq::<char>::empty(), ss) =~= ss);
        assert(seq_views(segs@) + prepend_first(s@.subrange(0, 0), ss) =~= ss);
    }
    while i < n
        invariant
            n as nat == s@.len(),
            seg_start <= i <= n,
            split_seq(s@, sep) == seq_views(segs@) + prepend_first(
                s@.subrange(seg_start as int, i as int),
                split_seq(s@.skip(i as int), sep),
            ),
        decreases n - i,
    {
        let ghost rest = s@.skip(i as int);
        let ghost rest1 = s@.skip(i as int + 1);
        proof {
            assert(rest.len() > 0);
            assert(rest[0] == s@[i as int]);
            assert(rest.drop_first() =~= rest1);
            lemma_split_seq_nonempty(rest1, sep);
        }
        let c = s.get_char(i);
        if c == sep {
            let ghost cur = s@.subrange(seg_start as int, i as int);
            let piece = s.substring_char(seg_start, i);
            segs.push(piece.to_owned());
            proof {
                assert(seq_views(segs@) =~= seq_views(segs@.drop_last()).push(cur));
                assert(prepend_first(cur, split_seq(rest, sep)) =~= seq![cur] + split_seq(
                    rest1,
                    sep,
                ));
                assert(seq_views(segs@.drop_last()) + prepend_first(cur, split_seq(rest, sep))
                    =~= seq_views(segs@) + prepend_first(
                    s@.subrange(i as int + 1, i as int + 1),
                    split_seq(rest1, sep),
                ));
            }
            seg_start = i + 1;
        } else {
            let ghost r = split_seq(rest1, sep);
            proof {
                assert(split_seq(rest, sep) == seq![seq![s@[i as int]] + r[0]] + r.skip(1));
                assert(s@.subrange(seg_start as int, i as int) + (seq![s@[i as int]] + r[0])
                    =~= s@.subrange(seg_start as int, i as int + 1) + r[0]);
                assert((seq![seq![s@[i as int]] + r[0]] + r.skip(1)).skip(1) =~= r.skip(1));
                assert(prepend_first(
                    s@.subrange(seg_start as int, i as int),
                    split_seq(rest, sep),
                ) =~= prepend_first(s@.subrange(seg_start as int, i as int + 1), r));
            }
        }
        i += 1;
    }
    let piece = s.substring_char(seg_start, n);
    segs.push(piece.to_owned());
    proof {
        let ghost cur = s@.subrange(seg_start as int, n as int);
        assert(s@.skip(n as int).len() == 0);
        assert(prepend_first(cur, split_seq(s@.skip(n as int), sep)) =~= seq![cur]);
        assert(seq_views(segs@) =~= seq_views(segs@.drop_last()).push(cur));
        assert(seq_views(segs@) =~= split_seq(s@, sep));
    }
    segs
}

} // verus!
