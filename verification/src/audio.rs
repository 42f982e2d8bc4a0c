use vstd::prelude::*;
use crate::text::str_eq;

verus! {

/// What an object of the PipeWire monitor tells about audio sinks, with
/// volumes of type `V`.
pub enum AudioEvent<V> {
    /// The metadata names the default sink (or none).
    DefaultSink(Option<String>),
    /// A sink with this node name reports its volume.
    SinkVolume(String, V),
    /// Anything else.
    Other,
}

/// The sinks PipeWire reported and which of them is the default.
pub struct PipeWireState<V> {
    pub default_sink: Option<String>,
    /// Each sink's last reported volume; no name occurs twice.
    pub sinks: Vec<(String, V)>,
}

/// The name of an optional sink, as characters.
pub open spec fn sink_name(name: Option<String>) -> Option<Seq<char>> {
    match name {
        Some(n) => Some(n@),
        None => None,
    }
}

impl<V: Copy> PipeWireState<V> {
    /// No sink name occurs twice.
    pub open spec fn wf(&self) -> bool {
        forall|i: int, j: int|
            0 <= i < j < self.sinks@.len() ==> #[trigger] self.sinks@[i].0@ != #[trigger] self.sinks@[j].0@
    }

    /// The volumes by sink name.
    pub open spec fn volumes(&self) -> Map<Seq<char>, V> {
        Map::new(
            |name: Seq<char>| exists|i: int| 0 <= i < self.sinks@.len() && #[trigger] self.sinks@[i].0@ == name,
            |name: Seq<char>|
                self.sinks@[choose|i: int| 0 <= i < self.sinks@.len() && #[trigger] self.sinks@[i].0@ == name].1,
        )
    }

    /// The volume of the default sink, if it is known.
    pub open spec fn default_volume(&self) -> Option<V> {
        match sink_name(self.default_sink) {
            Some(name) => if self.volumes().dom().contains(name) {
                Some(self.volumes()[name])
            } else {
                None
            },
            None => None,
        }
    }

    /// No sink known yet.
    pub fn new() -> (state: Self)
        ensures
            state.wf(),
            state.default_sink is None,
            state.volumes() == Map::<Seq<char>, V>::empty(),
    {
        let state = PipeWireState { default_sink: None, sinks: Vec::new() };
        assert(state.volumes() =~= Map::<Seq<char>, V>::empty());
        state
    }

    fn position(&self, name: &str) -> (found: Option<usize>)
        requires
            self.wf(),
        ensures
            match found {
                Some(i) => i < self.sinks@.len() && self.sinks@[i as int].0@ == name@,
                None => !self.volumes().dom().contains(name@),
            },
    {
        let mut i: usize = 0;
        while i < self.sinks.len()
            invariant
                0 <= i <= self.sinks@.len(),
                forall|k: int| 0 <= k < i ==> #[trigger] self.sinks@[k].0@ != name@,
            decreases self.sinks@.len() - i,
        {
            if str_eq(self.sinks[i].0.as_str(), name) {
                return Some(i);
            }
            i += 1;
        }
        None
    }

    proof fn lemma_volume_at(&self, i: int)
        requires
            self.wf(),
            0 <= i < self.sinks@.len(),
        ensures
            self.volumes().dom().contains(self.sinks@[i].0@),
            self.volumes()[self.sinks@[i].0@] == self.sinks@[i].1,
    {
        let name = self.sinks@[i].0@;
        assert(self.volumes().dom().contains(name));
        let j = choose|j: int| 0 <= j < self.sinks@.len() && #[trigger] self.sinks@[j].0@ == name;
        if j < i {
            assert(self.sinks@[j].0@ != self.sinks@[i].0@);
        } else if j > i {
            assert(self.sinks@[i].0@ != self.sinks@[j].0@);
        }
    }

    /// Takes in what the monitor reported and returns the default sink's
    /// volume when it may have changed: after the default sink changes, its
    /// volume if known; after a sink reports, that volume if it is the
    /// default sink's.
    pub fn update(&mut self, event: AudioEvent<V>) -> (volume: Option<V>)
        requires
            old(self).wf(),
        ensures
            final(self).wf(),
            match event {
                AudioEvent::DefaultSink(name) => {
                    &&& sink_name(final(self).default_sink) == sink_name(name)
                    &&& final(self).volumes() == old(self).volumes()
                    &&& volume == final(self).default_volume()
                },
                AudioEvent::SinkVolume(name, level) => {
                    &&& final(self).default_sink == old(self).default_sink
                    &&& final(self).volumes() == old(self).volumes().insert(name@, level)
                    &&& volume == if sink_name(old(self).default_sink) == Some(name@) {
                        Some(level)
                    } else {
                        None
                    }
                },
                AudioEvent::Other => {
                    &&& final(self).default_sink == old(self).default_sink
                    &&& final(self).sinks == old(self).sinks
                    &&& volume is None
                },
            },
    {
        match event {
            AudioEvent::DefaultSink(name) => {
                self.default_sink = name;
                match &self.default_sink {
                    None => None,
                    Some(n) => match self.position(n.as_str()) {
                        Some(i) => {
                            proof {
                                self.lemma_volume_at(i as int);
                            }
                            Some(self.sinks[i].1)
                        },
                        None => None,
                    },
                }
            },
            AudioEvent::SinkVolume(name, level) => {
                let ghost before = *self;
                let is_default = match &self.default_sink {
                    Some(d) => str_eq(d.as_str(), name.as_str()),
                    None => false,
                };
                match self.position(name.as_str()) {
                    Some(i) => {
                        self.sinks.set(i, (name, level));
                        proof {
                            assert(self.sinks@[i as int].0@ == name@);
                            assert forall|a: int, b: int| 0 <= a < b < self.sinks@.len() implies
                                #[trigger] self.sinks@[a].0@ != #[trigger] self.sinks@[b].0@ by {
                                assert(before.sinks@[a].0@ != before.sinks@[b].0@);
                            }
                            assert forall|n: Seq<char>| #[trigger] self.volumes().dom().contains(n) <==>
                                before.volumes().insert(name@, level).dom().contains(n) by {
                                if self.volumes().dom().contains(n) {
                                    let k = choose|k: int| 0 <= k < self.sinks@.len() && #[trigger] self.sinks@[k].0@ == n;
                                    assert(before.sinks@[k].0@ == n);
                                }
                                if before.volumes().dom().contains(n) {
                                    let k = choose|k: int| 0 <= k < before.sinks@.len() && #[trigger] before.sinks@[k].0@ == n;
                                    assert(self.sinks@[k].0@ == n);
                                }
                            }
                            assert forall|n: Seq<char>| #[trigger] self.volumes().dom().contains(n) implies
                                self.volumes()[n] == before.volumes().insert(name@, level)[n] by {
                                let k = choose|k: int| 0 <= k < self.sinks@.len() && #[trigger] self.sinks@[k].0@ == n;
                                self.lemma_volume_at(k);
                                if k != i {
                                    before.lemma_volume_at(k);
                                }
                            }
                            assert(self.volumes() =~= before.volumes().insert(name@, level));
                        }
                    },
                    None => {
                        self.sinks.push((name, level));
                        proof {
                            let last = before.sinks@.len() as int;
                            assert forall|a: int, b: int| 0 <= a < b < self.sinks@.len() implies
                                #[trigger] self.sinks@[a].0@ != #[trigger] self.sinks@[b].0@ by {
                                if b < last {
                                    assert(before.sinks@[a].0@ != before.sinks@[b].0@);
                                } else {
                                    assert(before.sinks@[a].0@ == self.sinks@[a].0@);
                                    if self.sinks@[a].0@ == name@ {
                                        assert(before.volumes().dom().contains(name@));
                                    }
                                }
                            }
                            assert forall|n: Seq<char>| #[trigger] self.volumes().dom().contains(n) <==>
                                before.volumes().insert(name@, level).dom().contains(n) by {
                                if self.volumes().dom().contains(n) {
                                    let k = choose|k: int| 0 <= k < self.sinks@.len() && #[trigger] self.sinks@[k].0@ == n;
                                    if k < last {
                                        assert(before.sinks@[k].0@ == n);
                                    }
                                }
                                if before.volumes().dom().contains(n) {
                                    let k = choose|k: int| 0 <= k < before.sinks@.len() && #[trigger] before.sinks@[k].0@ == n;
                                    assert(self.sinks@[k].0@ == n);
                                }
                                if n == name@ {
                                    assert(self.sinks@[last].0@ == n);
                                }
                            }
                            assert forall|n: Seq<char>| #[trigger] self.volumes().dom().contains(n) implies
                                self.volumes()[n] == before.volumes().insert(name@, level)[n] by {
                                let k = choose|k: int| 0 <= k < self.sinks@.len() && #[trigger] self.sinks@[k].0@ == n;
                                self.lemma_volume_at(k);
                                if k < last {
                                    before.lemma_volume_at(k);
                                }
                            }
                            assert(self.volumes() =~= before.volumes().insert(name@, level));
                        }
                    },
                }
                if is_default {
                    Some(level)
                } else {
                    None
                }
            },
            AudioEvent::Other => None,
        }
    }
}

} // verus!
