use vstd::prelude::*;

verus! {

/// Index `i` holds a candidate whose key is strictly below that of every
/// candidate before it and no greater than that of any candidate after it.
pub open spec fn is_nearest(keys: Seq<Option<u32>>, i: int) -> bool {
    &&& 0 <= i < keys.len()
    &&& keys[i] is Some
    &&& forall|j: int| 0 <= j < keys.len() && keys[j] is Some ==>
            keys[i]->0 <= keys[j]->0
    &&& forall|j: int| 0 <= j < i && keys[j] is Some ==> keys[i]->0 < keys[j]->0
}

/// Picks, among the candidates that hold a key, the one with the smallest key;
/// on equal keys the first one wins.
pub fn nearest_hit(keys: &Vec<Option<u32>>) -> (r: Option<usize>)
    ensures
        r is None <==> (forall|j: int| 0 <= j < keys@.len() ==> keys@[j] is None),
        r matches Some(i) ==> is_nearest(keys@, i as int),
{
    let mut best: Option<usize> = None;
    let mut i: usize = 0;
    while i < keys.len()
        invariant
            i <= keys@.len(),
            best is None <==> (forall|j: int| 0 <= j < i ==> keys@[j] is None),
            best matches Some(b) ==> is_nearest(keys@.subrange(0, i as int), b as int),
        decreases keys@.len() - i,
    {
        if let Some(k) = keys[i] {
            match best {
                None => {
                    best = Some(i);
                },
                Some(b) => {
                    let bk = keys[b].unwrap();
                    if k < bk {
                        best = Some(i);
                    }
                },
            }
        }
        i = i + 1;
    }
    proof {
        assert(keys@.subrange(0, keys@.len() as int) =~= keys@);
    }
    best
}

/// At most one candidate is the nearest, so the choice is fully determined.
pub proof fn lemma_nearest_unique(keys: Seq<Option<u32>>, i: int, j: int)
    requires
        is_nearest(keys, i),
        is_nearest(keys, j),
    ensures
        i == j,
{
    if i < j {
        assert(keys[j]->0 <= keys[i]->0);
    } else if j < i {
        assert(keys[i]->0 <= keys[j]->0);
    }
}

} // verus!
