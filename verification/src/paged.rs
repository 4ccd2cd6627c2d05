//! Work that is done in steps, until a step changes nothing.

use vstd::prelude::*;

verus! {

/// Runs `fun` on a cursor again and again, starting from `start`, until a run
/// leaves the cursor as the run before left it: then the work is done. A
/// failure of `fun` ends the work at once and is handed on.
///
/// Each run changes the cursor in place. After each run the cursor is compared
/// with a copy of what it was before the run; where they are equal the work
/// ends, and where they differ the copy is renewed and `fun` runs again. The
/// work also ends after as many runs as a machine can count.
///
/// In the contract run `i`, counted from zero, takes the cursor from
/// `before[i]` to `after[i]`, and `held[i]` is the copy that the cursor is
/// compared with after that run.
pub fn paged<T: Clone + PartialEq, F: FnMut(&mut T) -> Result<(), E>, E>(start: T, mut fun: F) -> (out:
    Result<(), E>)
    requires
        forall|t: &mut T| #[trigger] call_requires(fun, (t,)),
    ensures
        exists|before: Seq<T>, after: Seq<T>, held: Seq<T>|
            #![trigger before.len(), after.len(), held.len()]
            {
                let n = before.len() as int;
                &&& n >= 1
                &&& after.len() == n
                &&& held.len() == n
                &&& cloned(start, before[0])
                &&& cloned(start, held[0])
                &&& before.drop_first() == after.drop_last()
                &&& forall|i: int|
                    #![trigger after[i]]
                    0 <= i < n - 1 ==> cloned(after[i], held[i + 1])
                &&& forall|i: int|
                    #![trigger before[i]]
                    0 <= i < n - 1 ==> exists|c: &mut T|
                        #![trigger call_ensures(fun, (c,), Ok(()))]
                        {
                            &&& *c == before[i]
                            &&& *final(c) == after[i]
                            &&& call_ensures(fun, (c,), Ok(()))
                        }
                &&& forall|i: int|
                    #![trigger held[i]]
                    0 <= i < n - 1 ==> call_ensures(T::eq, (&held[i], &after[i]), false)
                &&& match out {
                    Ok(_) => {
                        &&& exists|c: &mut T|
                            #![trigger call_ensures(fun, (c,), Ok(()))]
                            {
                                &&& *c == before[n - 1]
                                &&& *final(c) == after[n - 1]
                                &&& call_ensures(fun, (c,), Ok(()))
                            }
                        &&& call_ensures(T::eq, (&held[n - 1], &after[n - 1]), true) || (n
                            == u64::MAX && call_ensures(
                            T::eq,
                            (&held[n - 1], &after[n - 1]),
                            false,
                        ))
                    },
                    Err(e) => exists|c: &mut T|
                        #![trigger call_ensures(fun, (c,), Err(e))]
                        {
                            &&& *c == before[n - 1]
                            &&& *final(c) == after[n - 1]
                            &&& call_ensures(fun, (c,), Err(e))
                        },
                }
            },
{
    let ghost f0 = fun;
    let mut old = start.clone();
    let mut cur = start.clone();
    let ghost first = cur;
    let ghost first_held = old;
    let ghost mut before: Seq<T> = Seq::empty();
    let ghost mut after: Seq<T> = Seq::empty();
    let ghost mut held: Seq<T> = Seq::empty();
    let mut runs: u64 = 0;
    let mut ended: Option<Result<(), E>> = None;
    while ended.is_none()
        invariant
            fun == f0,
            forall|t: &mut T| #[trigger] call_requires(fun, (t,)),
            cloned(start, first),
            cloned(start, first_held),
            ended is None ==> runs < u64::MAX,
            ended is None ==> before.len() == runs,
            ended is Some ==> before.len() == runs + 1,
            after.len() == before.len(),
            held.len() == before.len(),
            before.len() > 0 ==> before[0] == first && held[0] == first_held,
            before.len() > 0 ==> before.drop_first() == after.drop_last(),
            ended is None ==> (if runs == 0 {
                cur == first && old == first_held
            } else {
                cur == after.last() && cloned(after.last(), old)
            }),
            forall|i: int|
                #![trigger after[i]]
                0 <= i < before.len() - 1 ==> cloned(after[i], held[i + 1]),
            forall|i: int|
                #![trigger before[i]]
                0 <= i < runs ==> exists|c: &mut T|
                    #![trigger call_ensures(fun, (c,), Ok(()))]
                    {
                        &&& *c == before[i]
                        &&& *final(c) == after[i]
                        &&& call_ensures(fun, (c,), Ok(()))
                    },
            forall|i: int|
                #![trigger held[i]]
                0 <= i < runs ==> call_ensures(T::eq, (&held[i], &after[i]), false),
            ended matches Some(Ok(_)) ==> {
                &&& exists|c: &mut T|
                    #![trigger call_ensures(fun, (c,), Ok(()))]
                    {
                        &&& *c == before.last()
                        &&& *final(c) == after.last()
                        &&& call_ensures(fun, (c,), Ok(()))
                    }
                &&& call_ensures(T::eq, (&held.last(), &after.last()), true) || (before.len()
                    == u64::MAX && call_ensures(T::eq, (&held.last(), &after.last()), false))
            },
            ended matches Some(Err(e)) ==> exists|c: &mut T|
                #![trigger call_ensures(fun, (c,), Err(e))]
                {
                    &&& *c == before.last()
                    &&& *final(c) == after.last()
                    &&& call_ensures(fun, (c,), Err(e))
                },
        decreases (if ended is None { 1int } else { 0int }) + u64::MAX - runs,
    {
        let ghost entered = cur;
        let ghost before0 = before;
        let ghost after0 = after;
        let ghost held0 = held;
        let ran = fun(&mut cur);
        proof {
            before = before.push(entered);
            after = after.push(cur);
            held = held.push(old);
            assert(before.drop_first() =~= after.drop_last()) by {
                if before0.len() > 0 {
                    assert(before0.drop_first() == after0.drop_last());
                    assert(entered == after0.last());
                    assert(before.drop_first() =~= before0.drop_first().push(entered));
                    assert(after.drop_last() =~= after0);
                    assert(after0 =~= after0.drop_last().push(after0.last()));
                }
            }
            assert forall|i: int| #![trigger after[i]] 0 <= i < before.len() - 1 implies cloned(
                after[i],
                held[i + 1],
            ) by {
                if i < before0.len() - 1 {
                    assert(after0[i] == after[i]);
                    assert(held0[i + 1] == held[i + 1]);
                }
            }
            assert forall|i: int| #![trigger before[i]] 0 <= i < runs implies exists|c: &mut T|
                #![trigger call_ensures(fun, (c,), Ok(()))]
                {
                    &&& *c == before[i]
                    &&& *final(c) == after[i]
                    &&& call_ensures(fun, (c,), Ok(()))
                } by {
                assert(before0[i] == before[i]);
                assert(after0[i] == after[i]);
            }
            assert forall|i: int| #![trigger held[i]] 0 <= i < runs implies call_ensures(
                T::eq,
                (&held[i], &after[i]),
                false,
            ) by {
                assert(held0[i] == held[i]);
                assert(after0[i] == after[i]);
            }
        }
        match ran {
            Err(e) => {
                assert(ran == Err::<(), E>(e));
                ended = Some(Err(e));
            },
            Ok(u) => {
                assert(ran == Ok::<(), E>(()));
                let same = old.eq(&cur);
                if same || runs == u64::MAX - 1 {
                    ended = Some(Ok(()));
                } else {
                    old = cur.clone();
                    runs = runs + 1;
                }
            },
        }
    }
    let out: Result<(), E> = match ended {
        Some(out) => out,
        None => Ok(()),
    };
    proof {
        let n = before.len() as int;
        assert(fun == f0);
        assert(n == runs + 1);
        assert(cloned(start, before[0]));
        assert(cloned(start, held[0]));
        if out is Err {
            let e = out->Err_0;
            assert(ended == Some(Err::<(), E>(e)));
            assert(exists|c: &mut T|
                #![trigger call_ensures(fun, (c,), Err(e))]
                {
                    &&& *c == before[n - 1]
                    &&& *final(c) == after[n - 1]
                    &&& call_ensures(fun, (c,), Err(e))
                });
        } else {
            assert(ended matches Some(Ok(_)));
            assert(exists|c: &mut T|
                #![trigger call_ensures(fun, (c,), Ok(()))]
                {
                    &&& *c == before[n - 1]
                    &&& *final(c) == after[n - 1]
                    &&& call_ensures(fun, (c,), Ok(()))
                });
            assert(call_ensures(T::eq, (&held[n - 1], &after[n - 1]), true) || (n == u64::MAX
                && call_ensures(T::eq, (&held[n - 1], &after[n - 1]), false)));
        }
    }
    out
}

} // verus!
