//! Merging three streams into one.
//!
//! The streams themselves stay with the caller, who polls them; what a poll
//! of the merged stream makes of the three polls is decided here.

use vstd::prelude::*;

verus! {

/// Whether a value is there yet.
#[derive(Debug)]
pub enum Async<T> {
    /// The value.
    Ready(T),
    /// Nothing yet.
    NotReady,
}

/// An item of the merged stream: an item of one of the streams, or items of
/// several of them.
#[derive(Debug)]
pub enum Merged3Item<I1, I2, I3> {
    /// An item from the first stream
    First(I1),
    /// An item from the second stream
    Second(I2),
    /// An item from the third stream
    Third(I3),
    /// Items from first and second stream
    FirstSecond(I1, I2),
    /// Items from second and third stream
    SecondThird(I2, I3),
    /// Items from first and third stream
    FirstThird(I1, I3),
    /// Items from all streams
    All(I1, I2, I3),
}

/// The item that a poll of a stream has brought, if it has.
pub open spec fn item_of<I, E>(polled: Result<Async<Option<I>>, E>) -> Option<I> {
    match polled {
        Ok(Async::Ready(Some(i))) => Some(i),
        _ => None,
    }
}

/// The error of a poll, if it failed.
pub open spec fn error_of<I, E>(polled: Result<Async<Option<I>>, E>) -> Option<E> {
    match polled {
        Err(e) => Some(e),
        _ => None,
    }
}

/// Whether a poll found its stream at its end.
pub open spec fn ended<I, E>(polled: Result<Async<Option<I>>, E>) -> bool {
    polled matches Ok(Async::Ready(None))
}

/// Whether the second stream is polled: no error was kept from the poll
/// before, and the first stream did not fail.
pub open spec fn polls_second<I1, E>(queued: Option<E>, first: Result<Async<Option<I1>>, E>) -> bool {
    queued is None && first is Ok
}

/// Whether the third stream is polled: the second was, and it did not fail
/// without an item from the first at hand.
pub open spec fn polls_third<I1, I2, E>(
    queued: Option<E>,
    first: Result<Async<Option<I1>>, E>,
    second: Result<Async<Option<I2>>, E>,
) -> bool {
    polls_second(queued, first) && (item_of(first) is Some || second is Ok)
}

/// The items at hand as one item of the merged stream.
pub open spec fn merged_item<I1, I2, I3>(
    first: Option<I1>,
    second: Option<I2>,
    third: Option<I3>,
) -> Option<Merged3Item<I1, I2, I3>> {
    match (first, second, third) {
        (Some(a), Some(b), Some(c)) => Some(Merged3Item::All(a, b, c)),
        (Some(a), Some(b), None) => Some(Merged3Item::FirstSecond(a, b)),
        (Some(a), None, Some(c)) => Some(Merged3Item::FirstThird(a, c)),
        (Some(a), None, None) => Some(Merged3Item::First(a)),
        (None, Some(b), Some(c)) => Some(Merged3Item::SecondThird(b, c)),
        (None, Some(b), None) => Some(Merged3Item::Second(b)),
        (None, None, Some(c)) => Some(Merged3Item::Third(c)),
        (None, None, None) => None,
    }
}

/// What a poll of the merged stream hands back, given the error that was
/// kept from the poll before and what the three streams say where they are
/// polled.
///
/// An error that was kept comes out first. Else the streams are polled in
/// order. An error of a stream comes out at once while no item is at hand;
/// with an item at hand the item comes out. With no item and no error the
/// merged stream has ended when the first two streams have ended and the
/// third ends too, and has nothing yet in every other case.
pub open spec fn merged<I1, I2, I3, E>(
    queued: Option<E>,
    first: Result<Async<Option<I1>>, E>,
    second: Result<Async<Option<I2>>, E>,
    third: Result<Async<Option<I3>>, E>,
) -> Result<Async<Option<Merged3Item<I1, I2, I3>>>, E> {
    if queued is Some {
        Err(queued->0)
    } else if first is Err {
        Err(first->Err_0)
    } else if item_of(first) is Some {
        Ok(Async::Ready(merged_item(item_of(first), item_of(second), item_of(third))))
    } else if second is Err {
        Err(second->Err_0)
    } else if item_of(second) is Some {
        Ok(Async::Ready(merged_item(None, item_of(second), item_of(third))))
    } else if third is Err {
        Err(third->Err_0)
    } else if item_of(third) is Some {
        Ok(Async::Ready(merged_item(None, None, item_of(third))))
    } else if ended(first) && ended(second) && ended(third) {
        Ok(Async::Ready(None))
    } else {
        Ok(Async::NotReady)
    }
}

/// The error that a poll of the merged stream keeps for the next poll: with
/// an item at hand, the error of the third stream, or else of the second
/// where it came with an item of the first.
pub open spec fn kept<I1, I2, I3, E>(
    queued: Option<E>,
    first: Result<Async<Option<I1>>, E>,
    second: Result<Async<Option<I2>>, E>,
    third: Result<Async<Option<I3>>, E>,
) -> Option<E> {
    if queued is Some || first is Err {
        None
    } else if item_of(first) is Some {
        if third is Err {
            error_of(third)
        } else {
            error_of(second)
        }
    } else if item_of(second) is Some {
        error_of(third)
    } else {
        None
    }
}

/// The state of a merged stream between polls: the error that was kept back
/// when it came together with an item.
#[derive(Debug)]
pub struct Merge3<E> {
    queued_error: Option<E>,
}

/// A merged stream that has kept no error.
pub fn new<E>() -> (m: Merge3<E>)
    ensures
        m.queued() is None,
{
    Merge3 { queued_error: None }
}

impl<E> Merge3<E> {
    /// The error that is kept for the next poll.
    pub closed spec fn queued(&self) -> Option<E> {
        self.queued_error
    }

    /// Whether `first`, `second` and `third` are what the three polls said,
    /// for those that were made, and `r` is what the merged stream makes of
    /// them.
    pub open spec fn explains<I1, I2, I3, F1, F2, F3>(
        before: Option<E>,
        after: Option<E>,
        poll1: F1,
        poll2: F2,
        poll3: F3,
        first: Result<Async<Option<I1>>, E>,
        second: Result<Async<Option<I2>>, E>,
        third: Result<Async<Option<I3>>, E>,
        r: Result<Async<Option<Merged3Item<I1, I2, I3>>>, E>,
    ) -> bool where
        F1: FnOnce() -> Result<Async<Option<I1>>, E>,
        F2: FnOnce() -> Result<Async<Option<I2>>, E>,
        F3: FnOnce() -> Result<Async<Option<I3>>, E>,
     {
        &&& before is None ==> poll1.ensures((), first)
        &&& polls_second(before, first) ==> poll2.ensures((), second)
        &&& polls_third(before, first, second) ==> poll3.ensures((), third)
        &&& r == merged(before, first, second, third)
        &&& after == kept(before, first, second, third)
    }

    /// Polls the merged stream. The three streams are polled through
    /// `poll1`, `poll2` and `poll3`, in this order and only as far as needed.
    pub fn poll<I1, I2, I3, F1, F2, F3>(&mut self, poll1: F1, poll2: F2, poll3: F3) -> (r: Result<
        Async<Option<Merged3Item<I1, I2, I3>>>,
        E,
    >) where
        F1: FnOnce() -> Result<Async<Option<I1>>, E>,
        F2: FnOnce() -> Result<Async<Option<I2>>, E>,
        F3: FnOnce() -> Result<Async<Option<I3>>, E>,

        requires
            poll1.requires(()),
            poll2.requires(()),
            poll3.requires(()),
        ensures
            exists|
                first: Result<Async<Option<I1>>, E>,
                second: Result<Async<Option<I2>>, E>,
                third: Result<Async<Option<I3>>, E>,
            |
                #[trigger] Merge3::<E>::explains(
                    old(self).queued(),
                    final(self).queued(),
                    poll1,
                    poll2,
                    poll3,
                    first,
                    second,
                    third,
                    r,
                ),
    {
        let ghost before = self.queued_error;
        let ghost none1: Result<Async<Option<I1>>, E> = Ok(Async::NotReady);
        let ghost none2: Result<Async<Option<I2>>, E> = Ok(Async::NotReady);
        let ghost none3: Result<Async<Option<I3>>, E> = Ok(Async::NotReady);
        match self.queued_error.take() {
            Some(e) => {
                let r = Err(e);
                assert(Merge3::<E>::explains(
                    before,
                    self.queued(),
                    poll1,
                    poll2,
                    poll3,
                    none1,
                    none2,
                    none3,
                    r,
                ));
                return r;
            },
            None => {},
        }
        let first = poll1();
        let ghost first_was = first;
        let a1 = match first {
            Err(e) => {
                let r = Err(e);
                assert(Merge3::<E>::explains(
                    before,
                    self.queued(),
                    poll1,
                    poll2,
                    poll3,
                    first_was,
                    none2,
                    none3,
                    r,
                ));
                return r;
            },
            Ok(a) => a,
        };
        let second = poll2();
        let ghost second_was = second;
        match a1 {
            Async::Ready(Some(item1)) => {
                let item2 = match second {
                    Err(e) => {
                        self.queued_error = Some(e);
                        None
                    },
                    Ok(Async::Ready(Some(item2))) => Some(item2),
                    Ok(_) => None,
                };
                let third = poll3();
                let ghost third_was = third;
                let item3 = match third {
                    Err(e) => {
                        self.queued_error = Some(e);
                        None
                    },
                    Ok(Async::Ready(Some(item3))) => Some(item3),
                    Ok(_) => None,
                };
                let merged = match (item2, item3) {
                    (Some(item2), Some(item3)) => Merged3Item::All(item1, item2, item3),
                    (Some(item2), None) => Merged3Item::FirstSecond(item1, item2),
                    (None, Some(item3)) => Merged3Item::FirstThird(item1, item3),
                    (None, None) => Merged3Item::First(item1),
                };
                let r = Ok(Async::Ready(Some(merged)));
                assert(Merge3::<E>::explains(
                    before,
                    self.queued(),
                    poll1,
                    poll2,
                    poll3,
                    first_was,
                    second_was,
                    third_was,
                    r,
                ));
                r
            },
            a1 => {
                let a2 = match second {
                    Err(e) => {
                        let r = Err(e);
                        assert(Merge3::<E>::explains(
                            before,
                            self.queued(),
                            poll1,
                            poll2,
                            poll3,
                            first_was,
                            second_was,
                            none3,
                            r,
                        ));
                        return r;
                    },
                    Ok(a) => a,
                };
                let third = poll3();
                let ghost third_was = third;
                let r = match a2 {
                    Async::Ready(Some(item2)) => match third {
                        Err(e) => {
                            self.queued_error = Some(e);
                            Ok(Async::Ready(Some(Merged3Item::Second(item2))))
                        },
                        Ok(Async::Ready(Some(item3))) => Ok(
                            Async::Ready(Some(Merged3Item::SecondThird(item2, item3))),
                        ),
                        Ok(_) => Ok(Async::Ready(Some(Merged3Item::Second(item2)))),
                    },
                    a2 => match third {
                        Err(e) => Err(e),
                        Ok(Async::NotReady) => Ok(Async::NotReady),
                        Ok(Async::Ready(Some(item3))) => Ok(
                            Async::Ready(Some(Merged3Item::Third(item3))),
                        ),
                        Ok(Async::Ready(None)) => match (a1, a2) {
                            (Async::Ready(None), Async::Ready(None)) => Ok(Async::Ready(None)),
                            _ => Ok(Async::NotReady),
                        },
                    },
                };
                assert(Merge3::<E>::explains(
                    before,
                    self.queued(),
                    poll1,
                    poll2,
                    poll3,
                    first_was,
                    second_was,
                    third_was,
                    r,
                ));
                r
            },
        }
    }
}

} // verus!
