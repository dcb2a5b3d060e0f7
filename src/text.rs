use vstd::prelude::*;

verus! {

/// Whether `sep` occurs in `s` starting at position `i`.
pub open spec fn sep_at(s: Seq<char>, sep: Seq<char>, i: int) -> bool {
    0 <= i && i + sep.len() <= s.len() && s.subrange(i, i + sep.len()) == sep
}

/// The pieces of `s` between occurrences of `sep`, scanning from position
/// `i` with the current piece begun at `start`; occurrences are taken left
/// to right without overlap.
pub open spec fn split_from(s: Seq<char>, sep: Seq<char>, start: int, i: int) -> Seq<Seq<char>>
    recommends
        sep.len() > 0,
    decreases s.len() - i,
    when 0 <= start <= i && sep.len() > 0
{
    if i + sep.len() > s.len() {
        seq![s.subrange(start, s.len() as int)]
    } else if sep_at(s, sep, i) {
        seq![s.subrange(start, i)] + split_from(s, sep, i + sep.len(), i + sep.len())
    } else {
        split_from(s, sep, start, i + 1)
    }
}

/// The pieces of `s` between occurrences of `sep`.
pub open spec fn split_by(s: Seq<char>, sep: Seq<char>) -> Seq<Seq<char>> {
    split_from(s, sep, 0, 0)
}

/// Splitting always yields at least one piece.
pub proof fn lemma_split_nonempty(s: Seq<char>, sep: Seq<char>, start: int, i: int)
    requires
        0 <= start <= i,
        sep.len() > 0,
    ensures
        split_from(s, sep, start, i).len() >= 1,
    decreases s.len() - i,
{
    if i + sep.len() > s.len() {
    } else if sep_at(s, sep, i) {
        lemma_split_nonempty(s, sep, i + sep.len(), i + sep.len());
    } else {
        lemma_split_nonempty(s, sep, start, i + 1);
    }
}

/// The characters of `s`, one by one.
pub fn chars_of(s: &str) -> (r: Vec<char>)
    ensures
        r@ == s@,
{
    let n = s.unicode_len();
    let mut r: Vec<char> = Vec::new();
    let mut i: usize = 0;
    while i < n
        invariant
            n == s@.len(),
            i <= n,
            r@ == s@.subrange(0, i as int),
        decreases n - i,
    {
        r.push(s.get_char(i));
        i = i + 1;
    }
    r
}

/// Whether `a` and `b` hold the same characters.
pub fn same_text(a: &str, b: &str) -> (r: bool)
    ensures
        r == (a@ == b@),
{
    let n = a.unicode_len();
    if n != b.unicode_len() {
        return false;
    }
    let mut i: usize = 0;
    while i < n
        invariant
            n == a@.len(),
            n == b@.len(),
            i <= n,
            forall|j: int| 0 <= j < i ==> a@[j] == b@[j],
        decreases n - i,
    {
        if a.get_char(i) != b.get_char(i) {
            return false;
        }
        i = i + 1;
    }
    assert(a@ =~= b@);
    true
}

fn sep_matches(text: &Vec<char>, sep: &Vec<char>, i: usize) -> (r: bool)
    requires
        i + sep.len() <= text.len(),
    ensures
        r == sep_at(text@, sep@, i as int),
{
    let mut k: usize = 0;
    while k < sep.len()
        invariant
            i + sep.len() <= text.len(),
            k <= sep.len(),
            forall|j: int| 0 <= j < k ==> text@[i + j] == sep@[j],
        decreases sep.len() - k,
    {
        if text[i + k] != sep[k] {
            assert(text@.subrange(i as int, i + sep.len())[k as int] != sep@[k as int]);
            return false;
        }
        k = k + 1;
    }
    assert(text@.subrange(i as int, i + sep.len()) =~= sep@);
    true
}

/// Start and end positions of the pieces of `text` between occurrences of
/// `sep`.
pub fn split_bounds(text: &Vec<char>, sep: &Vec<char>) -> (r: Vec<(usize, usize)>)
    requires
        sep.len() > 0,
    ensures
        r.len() == split_by(text@, sep@).len(),
        r.len() >= 1,
        forall|k: int|
            #![trigger r[k]]
            0 <= k < r.len() ==> {
                &&& r[k].0 <= r[k].1 <= text.len()
                &&& split_by(text@, sep@)[k] == text@.subrange(r[k].0 as int, r[k].1 as int)
            },
{
    let ghost s = text@;
    let ghost whole = split_by(s, sep@);
    proof {
        lemma_split_nonempty(s, sep@, 0, 0);
    }
    let mut r: Vec<(usize, usize)> = Vec::new();
    let ghost mut acc: Seq<Seq<char>> = Seq::empty();
    let mut start: usize = 0;
    let mut i: usize = 0;
    while sep.len() <= text.len() - i
        invariant
            sep.len() > 0,
            s == text@,
            whole == split_by(s, sep@),
            start <= i <= text.len(),
            acc + split_from(s, sep@, start as int, i as int) == whole,
            r.len() == acc.len(),
            forall|k: int|
            #![trigger r[k]]
            0 <= k < r.len() ==> {
                    &&& r[k].0 <= r[k].1 <= text.len()
                    &&& acc[k] == s.subrange(r[k].0 as int, r[k].1 as int)
                },
        decreases text.len() - i,
    {
        if sep_matches(text, sep, i) {
            let ghost old_r = r@;
            let ghost old_acc = acc;
            proof {
                assert(acc + split_from(s, sep@, start as int, i as int) == acc.push(
                    s.subrange(start as int, i as int),
                ) + split_from(s, sep@, i + sep.len(), i + sep.len()));
                acc = acc.push(s.subrange(start as int, i as int));
            }
            r.push((start, i));
            assert forall|k: int| #![trigger r[k]] 0 <= k < r.len() implies {
                &&& r[k].0 <= r[k].1 <= text.len()
                &&& acc[k] == s.subrange(r[k].0 as int, r[k].1 as int)
            } by {
                if k < old_r.len() {
                    assert(r[k] == old_r[k]);
                    assert(acc[k] == old_acc[k]);
                    assert(old_acc[k] == s.subrange(old_r[k].0 as int, old_r[k].1 as int));
                }
            }
            i = i + sep.len();
            start = i;
        } else {
            i = i + 1;
        }
    }
    let ghost old_r = r@;
    let ghost old_acc = acc;
    proof {
        assert(acc + split_from(s, sep@, start as int, i as int) == acc.push(
            s.subrange(start as int, s.len() as int),
        ));
        acc = acc.push(s.subrange(start as int, s.len() as int));
    }
    r.push((start, text.len()));
    assert forall|k: int| #![trigger r[k]] 0 <= k < r.len() implies {
        &&& r[k].0 <= r[k].1 <= text.len()
        &&& split_by(text@, sep@)[k] == text@.subrange(r[k].0 as int, r[k].1 as int)
    } by {
        assert(acc[k] == whole[k]);
        if k < old_r.len() {
            assert(r[k] == old_r[k]);
            assert(acc[k] == old_acc[k]);
            assert(old_acc[k] == s.subrange(old_r[k].0 as int, old_r[k].1 as int));
        }
    }
    r
}

} // verus!
