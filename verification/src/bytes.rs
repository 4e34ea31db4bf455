//! Byte-string helpers shared by all components: node identifiers, actor
//! identities and 32-byte hashes are all held as `Vec<u8>` values of length 32,
//! labels as `Vec<u8>` values of bounded length.

use vstd::prelude::*;

verus! {

/// A 256-bit value (node identifier, actor identity, hash) is 32 bytes.
pub open spec fn is_b32(s: Seq<u8>) -> bool {
    s.len() == 32
}

/// Byte-string equality, decided by contents.
pub fn bytes_eq(a: &Vec<u8>, b: &Vec<u8>) -> (r: bool)
    ensures
        r == (a@ == b@),
{
    if a.len() != b.len() {
        proof {
            assert(a@.len() != b@.len());
        }
        return false;
    }
    let mut i: usize = 0;
    while i < a.len()
        invariant
            i <= a.len(),
            a@.len() == b@.len(),
            forall|j: int| 0 <= j < i ==> a@[j] == b@[j],
        decreases a.len() - i,
    {
        if a[i] != b[i] {
            return false;
        }
        i = i + 1;
    }
    proof {
        assert(a@ =~= b@);
    }
    true
}

/// Appends `src` to the end of `dst`.
pub fn append_bytes(dst: &mut Vec<u8>, src: &Vec<u8>)
    ensures
        final(dst)@ == old(dst)@ + src@,
{
    let mut i: usize = 0;
    while i < src.len()
        invariant
            i <= src.len(),
            dst@ == old(dst)@ + src@.take(i as int),
        decreases src.len() - i,
    {
        dst.push(src[i]);
        i = i + 1;
        proof {
            assert(dst@ == old(dst)@ + src@.take(i as int));
        }
    }
    proof {
        assert(src@.take(src@.len() as int) == src@);
    }
}

/// The deep view of a byte string is its view.
pub broadcast proof fn lemma_deep_view_is_view(v: Vec<u8>)
    ensures
        #[trigger] v.deep_view() == v@,
{
    assert(v.deep_view() =~= v@);
}

/// Copies a byte string; the copy has the same contents.
pub fn bytes_clone(v: &Vec<u8>) -> (r: Vec<u8>)
    ensures
        r@ == v@,
{
    let r = v.clone();
    proof {
        assert(r@ =~= v@);
    }
    r
}

/// Copies a list of byte strings; the copy has the same contents.
pub fn bytes_list_clone(v: &Vec<Vec<u8>>) -> (r: Vec<Vec<u8>>)
    ensures
        r.deep_view() == v.deep_view(),
{
    proof {
        lemma_bytes_deep_view(v);
    }
    let mut r: Vec<Vec<u8>> = Vec::new();
    let mut i: usize = 0;
    while i < v.len()
        invariant
            i <= v.len(),
            r@.len() == i,
            v.deep_view().len() == v@.len(),
            forall|j: int| 0 <= j < v@.len() ==> #[trigger] v.deep_view()[j] == v@[j]@,
            forall|j: int| 0 <= j < i ==> #[trigger] r@[j]@ == v.deep_view()[j],
        decreases v.len() - i,
    {
        r.push(bytes_clone(&v[i]));
        i = i + 1;
    }
    proof {
        lemma_bytes_deep_view(&r);
        assert(r.deep_view() =~= v.deep_view());
    }
    r
}

/// The deep view of a vector of byte strings is the sequence of their views.
pub proof fn lemma_bytes_deep_view(v: &Vec<Vec<u8>>)
    ensures
        v.deep_view().len() == v@.len(),
        forall|i: int| 0 <= i < v@.len() ==> #[trigger] v.deep_view()[i] == v@[i]@,
{
    assert forall|i: int| 0 <= i < v@.len() implies #[trigger] v.deep_view()[i] == v@[i]@ by {
        assert(v.deep_view()[i] =~= v@[i]@);
    }
}

/// Whether `item` occurs in `list`, compared by contents.
pub fn bytes_list_contains(list: &Vec<Vec<u8>>, item: &Vec<u8>) -> (r: bool)
    ensures
        r == list.deep_view().contains(item@),
{
    proof {
        lemma_bytes_deep_view(list);
    }
    let mut i: usize = 0;
    while i < list.len()
        invariant
            i <= list.len(),
            list.deep_view().len() == list@.len(),
            forall|j: int| 0 <= j < list@.len() ==> #[trigger] list.deep_view()[j] == list@[j]@,
            forall|j: int| 0 <= j < i ==> list.deep_view()[j] != item@,
        decreases list.len() - i,
    {
        if bytes_eq(&list[i], item) {
            proof {
                assert(list.deep_view()[i as int] == item@);
            }
            return true;
        }
        i = i + 1;
    }
    false
}

/// Appends copies of all of `src`'s byte strings to `dst`.
pub fn bytes_list_append(dst: &mut Vec<Vec<u8>>, src: &Vec<Vec<u8>>)
    ensures
        final(dst).deep_view() == old(dst).deep_view() + src.deep_view(),
{
    proof {
        lemma_bytes_deep_view(src);
        assert(old(dst).deep_view() + src.deep_view().take(0) =~= old(dst).deep_view());
    }
    let mut i: usize = 0;
    while i < src.len()
        invariant
            i <= src@.len(),
            src.deep_view().len() == src@.len(),
            forall|j: int| 0 <= j < src@.len() ==> #[trigger] src.deep_view()[j] == src@[j]@,
            dst.deep_view() == old(dst).deep_view() + src.deep_view().take(i as int),
        decreases src@.len() - i,
    {
        let ghost pre = dst.deep_view();
        dst.push(bytes_clone(&src[i]));
        i = i + 1;
        proof {
            lemma_bytes_deep_view(dst);
            assert(dst.deep_view() =~= pre.push(src.deep_view()[i - 1]));
            assert(dst.deep_view() =~= old(dst).deep_view() + src.deep_view().take(i as int));
        }
    }
    proof {
        assert(src.deep_view().take(src@.len() as int) =~= src.deep_view());
    }
}

/// Index of the first occurrence of `item` in `list`, if any.
pub fn bytes_list_find(list: &Vec<Vec<u8>>, item: &Vec<u8>) -> (r: Option<usize>)
    ensures
        match r {
            Some(i) => i < list.deep_view().len() && list.deep_view()[i as int] == item@ && forall|
                j: int,
            | 0 <= j < i ==> list.deep_view()[j] != item@,
            None => !list.deep_view().contains(item@),
        },
{
    proof {
        lemma_bytes_deep_view(list);
    }
    let mut i: usize = 0;
    while i < list.len()
        invariant
            i <= list.len(),
            list.deep_view().len() == list@.len(),
            forall|j: int| 0 <= j < list@.len() ==> #[trigger] list.deep_view()[j] == list@[j]@,
            forall|j: int| 0 <= j < i ==> list.deep_view()[j] != item@,
        decreases list.len() - i,
    {
        if bytes_eq(&list[i], item) {
            return Some(i);
        }
        i = i + 1;
    }
    None
}

/// Removes the first occurrence of `item` from `list`, if any; with no
/// duplicates present this removes `item` entirely.
pub fn bytes_list_remove(list: &mut Vec<Vec<u8>>, item: &Vec<u8>)
    requires
        old(list).deep_view().no_duplicates(),
    ensures
        final(list).deep_view() == old(list).deep_view().remove_value(item@),
        final(list).deep_view().no_duplicates(),
        !final(list).deep_view().contains(item@),
{
    let ghost orig = list.deep_view();
    match bytes_list_find(list, item) {
        Some(i) => {
            proof {
                assert(orig.index_of_first(item@) == Some(i as int)) by {
                    orig.index_of_first_ensures(item@);
                    let fi = orig.index_of_first(item@).unwrap();
                    if fi < i {
                        assert(orig[fi] == item@);
                    }
                }
            }
            list.remove(i);
            proof {
                lemma_bytes_deep_view(list);
                assert(list.deep_view() =~= orig.remove(i as int));
                crate::assoc::lemma_remove_no_duplicates_pub(orig, i as int);
                assert(!list.deep_view().contains(item@)) by {
                    if list.deep_view().contains(item@) {
                        let j = choose|j: int|
                            0 <= j < orig.remove(i as int).len() && orig.remove(i as int)[j]
                                == item@;
                        let j0 = if j < i {
                            j
                        } else {
                            j + 1
                        };
                        assert(orig[j0] == item@);
                    }
                }
            }
        },
        None => {
            proof {
                orig.index_of_first_ensures(item@);
            }
        },
    }
}

} // verus!
