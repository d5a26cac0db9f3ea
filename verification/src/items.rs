use vstd::prelude::*;
use crate::error::XDPError;
use crate::map_batch::{BatchResult, BATCH_SIZE};
use crate::map_common::{KeyValue, MapValue};
use crate::result::XDPResult;

verus! {

/// What a walk over all the items of a map needs next from its caller.
#[derive(Debug)]
pub enum WalkStep<K> {
    /// The key after this one; the first key of the map where it is `None`.
    NextKey(Option<K>),
    /// The value under this key.
    Lookup(K),
    /// A batch of up to `batch_size` elements, going on from `next_key`.
    LookupBatch { batch_size: u32, next_key: Option<u32> },
    /// Nothing: the walk is over.
    Done,
}

/// What the caller found when it did what the walk asked for.
pub enum WalkEvent<K, V> {
    /// The answer to `WalkStep::NextKey`.
    Key(XDPResult<K>),
    /// The answer to `WalkStep::Lookup`.
    Value(XDPResult<MapValue<V>>),
    /// The answer to `WalkStep::LookupBatch`.
    Batch(XDPResult<BatchResult<K, MapValue<V>>>),
}

/// A walk over all the items of a map. It never touches the kernel: it says
/// what it needs next, takes the answer, and keeps the items found so far.
///
/// A walk goes key by key (next key, its value, next key, ...) or batch by
/// batch. Going key by key, a walk over a map whose entries can vanish passes
/// over a key whose value cannot be read; any other walk stops at the first
/// value that cannot be read. That no further key can be had ends the walk
/// without an error.
pub struct ItemsWalk<K, V> {
    step: WalkStep<K>,
    items: Vec<KeyValue<K, MapValue<V>>>,
    error: Option<XDPError>,
    skip_lost: bool,
}

/// The state of a walk: what it asks for, the items it has, the error that
/// stopped it, and whether it passes over keys whose value cannot be read.
pub struct WalkView<K, V> {
    pub step: WalkStep<K>,
    pub items: Seq<KeyValue<K, MapValue<V>>>,
    pub error: Option<XDPError>,
    pub skip_lost: bool,
}

impl<K, V> WalkView<K, V> {
    /// A walk that is about to ask for the first key.
    pub open spec fn linear(skip_lost: bool) -> Self {
        WalkView { step: WalkStep::NextKey(None), items: Seq::empty(), error: None, skip_lost }
    }

    /// A walk that is about to ask for the first batch.
    pub open spec fn bulk() -> Self {
        WalkView {
            step: WalkStep::LookupBatch { batch_size: BATCH_SIZE, next_key: None },
            items: Seq::empty(),
            error: None,
            skip_lost: false,
        }
    }

    /// The walk after `event`. An event that does not answer what the walk
    /// asked for leaves it as it is.
    pub open spec fn advanced(self, event: WalkEvent<K, V>) -> Self {
        match (self.step, event) {
            (WalkStep::NextKey(_), WalkEvent::Key(Ok(key))) => WalkView {
                step: WalkStep::Lookup(key),
                ..self
            },
            (WalkStep::NextKey(_), WalkEvent::Key(Err(_))) => WalkView {
                step: WalkStep::Done,
                ..self
            },
            (WalkStep::Lookup(key), WalkEvent::Value(Ok(value))) => WalkView {
                step: WalkStep::NextKey(Some(key)),
                items: self.items.push(KeyValue { key, value }),
                ..self
            },
            (WalkStep::Lookup(key), WalkEvent::Value(Err(e))) => if self.skip_lost {
                WalkView { step: WalkStep::NextKey(Some(key)), ..self }
            } else {
                WalkView { step: WalkStep::Done, error: Some(e), ..self }
            },
            (WalkStep::LookupBatch { batch_size, .. }, WalkEvent::Batch(Ok(batch))) => WalkView {
                step: if batch.next_key is None {
                    WalkStep::Done
                } else {
                    WalkStep::LookupBatch { batch_size, next_key: batch.next_key }
                },
                items: self.items + batch.items@,
                ..self
            },
            (WalkStep::LookupBatch { .. }, WalkEvent::Batch(Err(e))) => WalkView {
                step: WalkStep::Done,
                error: Some(e),
                ..self
            },
            _ => self,
        }
    }

    /// What the walk has to show for itself: the error that stopped it, else
    /// the items.
    pub open spec fn outcome_is(self, r: XDPResult<Vec<KeyValue<K, MapValue<V>>>>) -> bool {
        match self.error {
            Some(e) => r == Err::<Vec<KeyValue<K, MapValue<V>>>, XDPError>(e),
            None => r is Ok && r->Ok_0@ == self.items,
        }
    }
}

impl<K, V> View for ItemsWalk<K, V> {
    type V = WalkView<K, V>;

    closed spec fn view(&self) -> WalkView<K, V> {
        WalkView {
            step: self.step,
            items: self.items@,
            error: self.error,
            skip_lost: self.skip_lost,
        }
    }
}

impl<K: Copy, V> ItemsWalk<K, V> {
    /// A walk that goes key by key. With `skip_lost` it passes over a key whose
    /// value cannot be read.
    pub fn linear(skip_lost: bool) -> (walk: Self)
        ensures
            walk@ == WalkView::<K, V>::linear(skip_lost),
    {
        ItemsWalk { step: WalkStep::NextKey(None), items: Vec::new(), error: None, skip_lost }
    }

    /// A walk that goes batch by batch.
    pub fn bulk() -> (walk: Self)
        ensures
            walk@ == WalkView::<K, V>::bulk(),
    {
        ItemsWalk {
            step: WalkStep::LookupBatch { batch_size: BATCH_SIZE, next_key: None },
            items: Vec::new(),
            error: None,
            skip_lost: false,
        }
    }

    /// What the walk needs next.
    pub fn step(&self) -> (step: WalkStep<K>)
        ensures
            step == self@.step,
    {
        match &self.step {
            WalkStep::NextKey(prev) => WalkStep::NextKey(*prev),
            WalkStep::Lookup(key) => WalkStep::Lookup(*key),
            WalkStep::LookupBatch { batch_size, next_key } => WalkStep::LookupBatch {
                batch_size: *batch_size,
                next_key: *next_key,
            },
            WalkStep::Done => WalkStep::Done,
        }
    }

    /// Takes the answer to what the walk asked for.
    pub fn advance(&mut self, event: WalkEvent<K, V>)
        ensures
            final(self)@ == old(self)@.advanced(event),
    {
        match event {
            WalkEvent::Key(found) => {
                if let WalkStep::NextKey(_) = &self.step {
                    match found {
                        Ok(key) => {
                            self.step = WalkStep::Lookup(key);
                        },
                        Err(_) => {
                            self.step = WalkStep::Done;
                        },
                    }
                }
            },
            WalkEvent::Value(read) => {
                if let WalkStep::Lookup(key) = &self.step {
                    let key: K = *key;
                    match read {
                        Ok(value) => {
                            self.items.push(KeyValue { key, value });
                            self.step = WalkStep::NextKey(Some(key));
                        },
                        Err(e) => {
                            if self.skip_lost {
                                self.step = WalkStep::NextKey(Some(key));
                            } else {
                                self.error = Some(e);
                                self.step = WalkStep::Done;
                            }
                        },
                    }
                }
            },
            WalkEvent::Batch(fetched) => {
                if let WalkStep::LookupBatch { batch_size, .. } = &self.step {
                    let batch_size: u32 = *batch_size;
                    match fetched {
                        Ok(batch) => {
                            let mut batch = batch;
                            self.items.append(&mut batch.items);
                            if batch.next_key.is_none() {
                                self.step = WalkStep::Done;
                            } else {
                                self.step = WalkStep::LookupBatch {
                                    batch_size,
                                    next_key: batch.next_key,
                                };
                            }
                        },
                        Err(e) => {
                            self.error = Some(e);
                            self.step = WalkStep::Done;
                        },
                    }
                }
            },
        }
    }

    /// Ends the walk: the error that stopped it, else the items it found, in
    /// the order in which they came.
    pub fn finish(self) -> (r: XDPResult<Vec<KeyValue<K, MapValue<V>>>>)
        ensures
            self@.outcome_is(r),
    {
        match self.error {
            Some(e) => Err(e),
            None => Ok(self.items),
        }
    }
}

} // verus!
