use vstd::prelude::*;

use crate::model::tag_views;
use crate::order::lemma_seq_lt_asymmetric;
use crate::order::lemma_seq_lt_connected;
use crate::order::lemma_seq_lt_transitive;
use crate::order::seq_lt;
use crate::order::str_lt;

verus! {

/// A tag list in canonical form: strictly ascending by `seq_lt`, and
/// therefore free of duplicates.
pub open spec fn tags_sorted(s: Seq<String>) -> bool {
    forall|i: int, j: int| 0 <= i < j < s.len() ==> seq_lt(#[trigger] s[i]@, #[trigger] s[j]@)
}

/// The set of tag values a tag list denotes; submission order and
/// duplicates do not show in it.
pub open spec fn tag_set(s: Seq<String>) -> Set<Seq<char>> {
    Set::new(|x: Seq<char>| exists|i: int| 0 <= i < s.len() && #[trigger] s[i]@ == x)
}

/// Appending a tag adds exactly its value to the denoted set.
pub proof fn lemma_tag_set_push(s: Seq<String>, t: String)
    ensures
        tag_set(s.push(t)) == tag_set(s).insert(t@),
{
    assert forall|x: Seq<char>| tag_set(s.push(t)).contains(x) implies tag_set(s).insert(
        t@,
    ).contains(x) by {
        let i = choose|i: int| 0 <= i < s.push(t).len() && s.push(t)[i]@ == x;
        if i < s.len() {
            assert(s[i]@ == x);
            assert(tag_set(s).contains(x));
        } else {
            assert(s.push(t)[i] == t);
        }
    }
    assert forall|x: Seq<char>| tag_set(s).insert(t@).contains(x) implies tag_set(
        s.push(t),
    ).contains(x) by {
        if x == t@ {
            assert(s.push(t)[s.len() as int]@ == x);
        } else {
            let i = choose|i: int| 0 <= i < s.len() && s[i]@ == x;
            assert(s.push(t)[i]@ == x);
        }
    }
    assert(tag_set(s.push(t)) =~= tag_set(s).insert(t@));
}

/// Inserting a tag at any position adds exactly its value to the set.
pub proof fn lemma_tag_set_insert(s: Seq<String>, k: int, t: String)
    requires
        0 <= k <= s.len(),
    ensures
        tag_set(s.insert(k, t)) == tag_set(s).insert(t@),
{
    s.insert_ensures(k, t);
    let s2 = s.insert(k, t);
    assert forall|x: Seq<char>| tag_set(s2).contains(x) implies tag_set(s).insert(
        t@,
    ).contains(x) by {
        let i = choose|i: int| 0 <= i < s2.len() && s2[i]@ == x;
        if i < k {
            assert(s[i]@ == x);
            assert(tag_set(s).contains(x));
        } else if i == k {
            assert(s2[k] == t);
        } else {
            assert(s2[i] == s[i - 1]);
            assert(tag_set(s).contains(x));
        }
    }
    assert forall|x: Seq<char>| tag_set(s).insert(t@).contains(x) implies tag_set(s2).contains(
        x,
    ) by {
        if x == t@ {
            assert(s2[k]@ == x);
        } else {
            let i = choose|i: int| 0 <= i < s.len() && s[i]@ == x;
            if i < k {
                assert(s2[i]@ == x);
            } else {
                assert(s2[i + 1]@ == x);
            }
        }
    }
    assert(tag_set(s2) =~= tag_set(s).insert(t@));
}

/// First position whose tag is not strictly below `tag`.
fn lower_bound(out: &Vec<String>, tag: &String) -> (k: usize)
    ensures
        k <= out.len(),
        forall|j: int| 0 <= j < k ==> seq_lt(#[trigger] out@[j]@, tag@),
        k < out.len() ==> !seq_lt(out@[k as int]@, tag@),
{
    let mut k: usize = 0;
    while k < out.len()
        invariant
            k <= out.len(),
            forall|j: int| 0 <= j < k ==> seq_lt(#[trigger] out@[j]@, tag@),
        decreases out.len() - k,
    {
        if !str_lt(out[k].as_str(), tag.as_str()) {
            return k;
        }
        k += 1;
    }
    k
}

/// Collapses a submitted tag sequence into its canonical form: duplicates
/// dropped, values in ascending order. The denoted set is unchanged.
pub fn normalize_tags(tags: &Vec<String>) -> (r: Vec<String>)
    ensures
        tags_sorted(r@),
        tag_set(r@) == tag_set(tags@),
        forall|i: int| 0 <= i < r@.len() ==> tag_set(tags@).contains(#[trigger] r@[i]@),
{
    let mut out: Vec<String> = Vec::new();
    let mut t: usize = 0;
    proof {
        assert(tag_set(out@) =~= tag_set(tags@.subrange(0, 0)));
    }
    while t < tags.len()
        invariant
            t <= tags.len(),
            tags_sorted(out@),
            tag_set(out@) == tag_set(tags@.subrange(0, t as int)),
        decreases tags.len() - t,
    {
        let ghost prefix = tags@.subrange(0, t as int);
        let tag = &tags[t];
        let k = lower_bound(&out, tag);
        let mut duplicate = false;
        if k < out.len() {
            if out[k] == *tag {
                duplicate = true;
            }
        }
        proof {
            assert(tags@.subrange(0, t + 1 as int) =~= prefix.push(tags@[t as int]));
            lemma_tag_set_push(prefix, tags@[t as int]);
        }
        if duplicate {
            proof {
                assert(tag_set(out@).contains(tag@));
                assert(tag_set(out@).insert(tag@) =~= tag_set(out@));
            }
        } else {
            let ghost old_out = out@;
            proof {
                if k < out@.len() {
                    lemma_seq_lt_connected(out@[k as int]@, tag@);
                }
            }
            out.insert(k, tag.clone());
            proof {
                old_out.insert_ensures(k as int, out@[k as int]);
                lemma_tag_set_insert(old_out, k as int, out@[k as int]);
                assert(out@[k as int]@ == tag@);
                assert forall|i: int, j: int| 0 <= i < j < out@.len() implies seq_lt(
                    out@[i]@,
                    out@[j]@,
                ) by {
                    if j < k {
                        assert(out@[i] == old_out[i] && out@[j] == old_out[j]);
                    } else if j == k {
                        assert(out@[i] == old_out[i]);
                        assert(seq_lt(old_out[i]@, tag@));
                    } else {
                        assert(out@[j] == old_out[j - 1]);
                        if i < k {
                            assert(out@[i] == old_out[i]);
                            if j - 1 == k as int {
                                // old_out[k] is above tag, which is above old_out[i]
                                assert(k < old_out.len());
                                assert(seq_lt(tag@, old_out[k as int]@));
                                lemma_seq_lt_transitive(old_out[i]@, tag@, old_out[k as int]@);
                            } else {
                                assert(seq_lt(old_out[i]@, old_out[j - 1]@));
                            }
                        } else if i == k {
                            assert(k < old_out.len());
                            assert(seq_lt(tag@, old_out[k as int]@));
                            if j - 1 == k as int {
                            } else {
                                assert(seq_lt(old_out[k as int]@, old_out[j - 1]@));
                                lemma_seq_lt_transitive(tag@, old_out[k as int]@, old_out[j - 1]@);
                            }
                        } else {
                            assert(out@[i] == old_out[i - 1]);
                            assert(seq_lt(old_out[i - 1]@, old_out[j - 1]@));
                        }
                    }
                }
            }
        }
        t += 1;
    }
    proof {
        assert(tags@.subrange(0, tags@.len() as int) =~= tags@);
        assert forall|i: int| 0 <= i < out@.len() implies tag_set(tags@).contains(
            #[trigger] out@[i]@,
        ) by {
            assert(tag_set(out@).contains(out@[i]@));
        }
    }
    out
}

/// Canonical form is unique: two sorted tag lists denoting the same set
/// hold the same values in the same order. This is what makes the
/// externally returned tag set deterministic.
pub proof fn lemma_canonical_tags_unique(a: Seq<String>, b: Seq<String>)
    requires
        tags_sorted(a),
        tags_sorted(b),
        tag_set(a) == tag_set(b),
    ensures
        tag_views(a) == tag_views(b),
    decreases a.len(),
{
    if a.len() == 0 {
        if b.len() > 0 {
            assert(tag_set(b).contains(b[0]@));
            assert(tag_set(a).contains(b[0]@));
            assert(false);
        }
        assert(tag_views(a) =~= tag_views(b));
    } else if b.len() == 0 {
        assert(tag_set(a).contains(a[0]@));
        assert(tag_set(b).contains(a[0]@));
        assert(false);
    } else {
        // The heads are both the least element of the common set.
        assert(tag_set(a).contains(a[0]@));
        assert(tag_set(b).contains(b[0]@));
        let i = choose|i: int| 0 <= i < a.len() && a[i]@ == b[0]@;
        let j = choose|j: int| 0 <= j < b.len() && b[j]@ == a[0]@;
        assert(a[0]@ == b[0]@) by {
            if i > 0 && j > 0 {
                assert(seq_lt(a[0]@, a[i]@));
                assert(seq_lt(b[0]@, b[j]@));
                lemma_seq_lt_transitive(a[0]@, b[0]@, a[0]@);
                lemma_seq_lt_asymmetric(a[0]@, a[0]@);
            }
        }
        lemma_sorted_tail_set(a);
        lemma_sorted_tail_set(b);
        assert(tag_set(a.skip(1)) =~= tag_set(b.skip(1)));
        lemma_canonical_tags_unique(a.skip(1), b.skip(1));
        assert(a.len() == b.len()) by {
            assert(tag_views(a.skip(1)).len() == a.skip(1).len());
            assert(tag_views(b.skip(1)).len() == b.skip(1).len());
        }
        assert forall|x: int| 0 <= x < a.len() implies tag_views(a)[x] == tag_views(b)[x] by {
            assert(tag_views(a)[x] == a[x]@);
            assert(tag_views(b)[x] == b[x]@);
            if x >= 1 {
                assert(tag_views(a.skip(1))[x - 1] == tag_views(b.skip(1))[x - 1]);
                assert(tag_views(a.skip(1))[x - 1] == a.skip(1)[x - 1]@);
                assert(tag_views(b.skip(1))[x - 1] == b.skip(1)[x - 1]@);
                assert(a.skip(1)[x - 1] == a[x]);
                assert(b.skip(1)[x - 1] == b[x]);
            }
        }
        assert(tag_views(a) =~= tag_views(b));
    }
}

/// In a sorted tag list the tail denotes the set without the head.
proof fn lemma_sorted_tail_set(a: Seq<String>)
    requires
        tags_sorted(a),
        a.len() > 0,
    ensures
        tag_set(a.skip(1)) == tag_set(a).remove(a[0]@),
{
    assert forall|x: Seq<char>| tag_set(a.skip(1)).contains(x) implies tag_set(a).remove(
        a[0]@,
    ).contains(x) by {
        let i = choose|i: int| 0 <= i < a.skip(1).len() && a.skip(1)[i]@ == x;
        assert(a[i + 1]@ == x);
        assert(tag_set(a).contains(x));
        assert(seq_lt(a[0]@, a[i + 1]@));
        lemma_seq_lt_asymmetric(a[0]@, a[i + 1]@);
    }
    assert forall|x: Seq<char>| tag_set(a).remove(a[0]@).contains(x) implies tag_set(
        a.skip(1),
    ).contains(x) by {
        let i = choose|i: int| 0 <= i < a.len() && a[i]@ == x;
        assert(i != 0);
        assert(a.skip(1)[i - 1]@ == x);
    }
    assert(tag_set(a.skip(1)) =~= tag_set(a).remove(a[0]@));
}

} // verus!
