//! The block processor: consumes the ordered stream of parameter and note
//! events that belongs to one sub-block of the output, mutates the
//! parameter store or the voice pool accordingly, then renders every live
//! voice additively into the sub-block's sample range (zeroed first).

use vstd::prelude::*;
use rand::rngs::SmallRng;
use crate::params::{ParamStore, ParamValue, OSC_NR, PARAMETER_NR};
use crate::pool::{alive_contains, Keys};
use crate::tuning::NoteData;
use crate::tuning::{TuningTable, KEYS_NR};
use crate::voice::Key;

verus! {

/// MIDI status nibble of a note-on message.
pub const MIDI_ON: u8 = 0x90;

/// MIDI status nibble of a note-off message.
pub const MIDI_OFF: u8 = 0x80;

/// MIDI status nibble of a control-change message.
pub const MIDI_CC: u8 = 0xB0;

/// Controller number that forcibly ends every voice.
pub const MIDI_CC_ALL_SOUNDS_OFF: u8 = 0x78;

/// Controller number that releases every voice.
pub const MIDI_CC_ALL_NOTES_OFF: u8 = 0x7B;

/// One event at a sub-block boundary: a parameter change already split into
/// its value forms, or a three-byte MIDI message.
#[derive(Clone, Copy, PartialEq, Eq, Structural, Debug)]
pub enum Event {
    Param { id: u32, value: ParamValue },
    Midi { status: u8, data1: u8, data2: u8 },
}

/// What one event does: a parameter change applies to the store and leaves
/// the pool alone; a MIDI message applies to the pool and leaves the store
/// alone.
pub open spec fn event_step_rel(e: Event, s0: ParamStore, k0: Keys, s1: ParamStore, k1: Keys) -> bool {
    match e {
        Event::Param { id, value } => ParamStore::param_apply_rel(s0, s1, id, value) && s1.wf()
            && k1 == k0,
        Event::Midi { status, data1, data2 } => s1 == s0 && Engine::midi_rel(
            status,
            data1,
            data2,
            s0,
            k0,
            k1,
        ) && k1.wf(),
    }
}

/// A run of intermediate states that applies an ordered event sequence:
/// one store and one pool per boundary, each step related by
/// `event_step_rel`, starting at (s0, k0) and ending at (s1, k1).
pub open spec fn events_trace_ok(
    events: Seq<Event>,
    stores: Seq<ParamStore>,
    pools: Seq<Keys>,
    s0: ParamStore,
    k0: Keys,
    s1: ParamStore,
    k1: Keys,
) -> bool {
    &&& stores.len() == events.len() + 1
    &&& pools.len() == events.len() + 1
    &&& stores[0] == s0
    &&& pools[0] == k0
    &&& stores[events.len() as int] == s1
    &&& pools[events.len() as int] == k1
    &&& forall|i: int|
        0 <= i < events.len() ==> #[trigger] event_step_rel(
            events[i],
            stores[i],
            pools[i],
            stores[i + 1],
            pools[i + 1],
        )
}

/// The store and the pool after an ordered event sequence: some run of
/// intermediate states applies every event in order.
pub open spec fn events_applied(
    events: Seq<Event>,
    s0: ParamStore,
    k0: Keys,
    s1: ParamStore,
    k1: Keys,
) -> bool {
    exists|stores: Seq<ParamStore>, pools: Seq<Keys>|
        #[trigger] events_trace_ok(events, stores, pools, s0, k0, s1, k1)
}

/// The buffer with the sub-block's range cleared and everything else kept.
pub open spec fn zeroed_spec(out: Seq<i64>, start: int, end: int) -> Seq<i64> {
    Seq::new(
        out.len(),
        |k: int|
            if start <= k < end {
                0i64
            } else {
                out[k]
            },
    )
}

/// The oscillators the block processor activates: those with a positive
/// mix level, in slot order.
pub open spec fn active_oscs_spec(levels: Seq<i64>) -> Seq<usize> {
    let s0 = if levels[0] > 0 {
        seq![0usize]
    } else {
        Seq::<usize>::empty()
    };
    let s1 = if levels[1] > 0 {
        s0.push(1)
    } else {
        s0
    };
    if levels[2] > 0 {
        s1.push(2)
    } else {
        s1
    }
}

/// The synthesis engine for one activation: the voice pool and the tuning
/// table computed for the current sample rate.
pub struct Engine {
    pub keys: Keys,
    pub table: TuningTable,
}

impl Engine {
    pub open spec fn wf(self) -> bool {
        &&& self.keys.wf()
        &&& self.table.wf()
    }

    /// A fresh engine over a validated tuning table: every voice silent,
    /// nothing live.
    pub fn new(table: TuningTable) -> (r: Engine)
        requires
            table.wf(),
        ensures
            r.wf(),
            r.keys.alive() == Seq::<usize>::empty(),
            forall|i: int| 0 <= i < KEYS_NR ==> !(#[trigger] r.keys.keys@[i]).is_on_spec(),
    {
        Engine { keys: Keys::new(), table }
    }

    /// What one MIDI message does to the voice pool. Note-on applies
    /// `Key::on_rel` to the (range-wrapped) note's voice and makes sure the
    /// note is listed once; note-off applies `Key::release_rel`; the
    /// all-sounds-off controller ends every listed voice and the
    /// all-notes-off controller releases every sounding listed voice (off
    /// ones are pruned); anything else changes nothing.
    pub open spec fn midi_rel(
        status: u8,
        data1: u8,
        data2: u8,
        params: ParamStore,
        pre: Keys,
        post: Keys,
    ) -> bool {
        let msg = status & 0xF0;
        let note = (data1 as int) % (KEYS_NR as int);
        if msg == MIDI_ON {
            &&& Key::on_rel(pre.keys@[note], post.keys@[note], data2, params)
            &&& forall|i: int|
                0 <= i < KEYS_NR && i != note ==> #[trigger] post.keys@[i] == pre.keys@[i]
            &&& alive_contains(post.alive(), note)
            &&& (alive_contains(pre.alive(), note) ==> post.alive() == pre.alive())
            &&& (!alive_contains(pre.alive(), note) ==> post.alive() == pre.alive().push(
                (data1 as usize) % KEYS_NR,
            ))
        } else if msg == MIDI_OFF {
            &&& Key::release_rel(pre.keys@[note], post.keys@[note])
            &&& forall|i: int|
                0 <= i < KEYS_NR && i != note ==> #[trigger] post.keys@[i] == pre.keys@[i]
            &&& post.alive() == pre.alive()
        } else if msg == MIDI_CC && data1 == MIDI_CC_ALL_SOUNDS_OFF {
            &&& forall|n: int|
                0 <= n < KEYS_NR && !alive_contains(pre.alive(), n) ==> #[trigger] post.keys@[n]
                    == pre.keys@[n]
            &&& forall|n: int|
                0 <= n < KEYS_NR && alive_contains(pre.alive(), n) ==> Key::end_rel(
                    pre.keys@[n],
                    #[trigger] post.keys@[n],
                ) && !post.keys@[n].is_on_spec()
            &&& forall|j: int|
                0 <= j < post.alive().len() ==> alive_contains(
                    pre.alive(),
                    #[trigger] post.alive()[j] as int,
                )
        } else if msg == MIDI_CC && data1 == MIDI_CC_ALL_NOTES_OFF {
            &&& forall|n: int|
                0 <= n < KEYS_NR && !alive_contains(pre.alive(), n) ==> #[trigger] post.keys@[n]
                    == pre.keys@[n]
            &&& forall|n: int|
                0 <= n < KEYS_NR && alive_contains(pre.alive(), n) && pre.keys@[n].is_on_spec()
                    ==> Key::release_rel(pre.keys@[n], #[trigger] post.keys@[n])
            &&& forall|n: int|
                0 <= n < KEYS_NR && alive_contains(pre.alive(), n) && !pre.keys@[n].is_on_spec()
                    ==> Key::end_rel(pre.keys@[n], #[trigger] post.keys@[n])
            &&& forall|j: int|
                0 <= j < post.alive().len() ==> alive_contains(
                    pre.alive(),
                    #[trigger] post.alive()[j] as int,
                )
        } else {
            post == pre
        }
    }

    /// Applies one MIDI message to the voice pool, exactly as `midi_rel`
    /// says: note-on starts the note's voice (the note number wrapped into
    /// the playable range, a zero velocity ending the voice instead);
    /// note-off releases it; the all-sounds-off controller instantly ends
    /// every live voice and the all-notes-off controller releases every
    /// live voice; anything else is ignored.
    pub fn apply_midi_event(
        &mut self,
        status: u8,
        data1: u8,
        data2: u8,
        params: &ParamStore,
        rng: &mut SmallRng,
    )
        requires
            old(self).wf(),
            params.wf(),
        ensures
            final(self).wf(),
            final(self).table == old(self).table,
            Engine::midi_rel(status, data1, data2, *params, old(self).keys, final(self).keys),
            status & 0xF0 == MIDI_ON && data2 > 0 ==> final(self).keys.keys@[(data1 as int) % (
            KEYS_NR as int)].is_on_spec() && alive_contains(
                final(self).keys.alive(),
                (data1 as int) % (KEYS_NR as int),
            ),
            status & 0xF0 == MIDI_ON && data2 == 0 ==> !final(self).keys.keys@[(data1 as int) % (
            KEYS_NR as int)].is_on_spec(),
            status & 0xF0 == MIDI_OFF ==> Key::release_rel(
                old(self).keys.keys@[(data1 as int) % (KEYS_NR as int)],
                final(self).keys.keys@[(data1 as int) % (KEYS_NR as int)],
            ),
            status & 0xF0 == MIDI_CC && data1 == MIDI_CC_ALL_SOUNDS_OFF ==> forall|n: int|
                0 <= n < KEYS_NR && alive_contains(old(self).keys.alive(), n) ==> Key::end_rel(
                    old(self).keys.keys@[n],
                    #[trigger] final(self).keys.keys@[n],
                ) && !final(self).keys.keys@[n].is_on_spec(),
            status & 0xF0 == MIDI_CC && data1 == MIDI_CC_ALL_NOTES_OFF ==> forall|n: int|
                0 <= n < KEYS_NR && alive_contains(old(self).keys.alive(), n) && old(
                    self,
                ).keys.keys@[n].is_on_spec() ==> Key::release_rel(
                    old(self).keys.keys@[n],
                    #[trigger] final(self).keys.keys@[n],
                ),
            !(status & 0xF0 == MIDI_ON || status & 0xF0 == MIDI_OFF || status & 0xF0 == MIDI_CC)
                ==> *final(self) == *old(self),
            status & 0xF0 == MIDI_CC && data1 != MIDI_CC_ALL_SOUNDS_OFF && data1
                != MIDI_CC_ALL_NOTES_OFF ==> *final(self) == *old(self),
    {
        let msg: u8 = status & 0xF0;
        if msg == MIDI_ON {
            let note: usize = (data1 as usize) % KEYS_NR;
            proof {
                assert(note as int == (data1 as int) % (KEYS_NR as int));
            }
            self.keys.on(note, data2, params, rng);
        } else if msg == MIDI_OFF {
            let note: usize = (data1 as usize) % KEYS_NR;
            proof {
                assert(note as int == (data1 as int) % (KEYS_NR as int));
            }
            self.keys.release(note);
        } else if msg == MIDI_CC {
            if data1 == MIDI_CC_ALL_SOUNDS_OFF {
                self.keys.end_live();
            } else if data1 == MIDI_CC_ALL_NOTES_OFF {
                self.keys.release_live();
            }
        }
    }

    /// What one sub-block does, through the intermediate pool state the
    /// events left behind: the events applied in order, the sub-block's
    /// range zeroed, and every live voice rendered into it.
    pub open spec fn sub_block_rel(
        events: Seq<Event>,
        s0: ParamStore,
        k0: Keys,
        s1: ParamStore,
        km: Keys,
        k1: Keys,
        out0: Seq<i64>,
        out1: Seq<i64>,
        start: int,
        end: int,
        table: Seq<NoteData>,
        rendered: bool,
    ) -> bool {
        &&& events_applied(events, s0, k0, s1, km)
        &&& km.wf()
        &&& Keys::render_rel(
            km,
            k1,
            zeroed_spec(out0, start, end),
            out1,
            start,
            end,
            s1.pitch_offset@,
            s1.levels_q@,
            active_oscs_spec(s1.levels_q@),
            table,
            rendered,
        )
    }

    /// Applies the events of one sub-block in order: parameter changes to
    /// the store, MIDI messages to the pool. The caller needs the store
    /// writable only for this call.
    pub fn apply_events(&mut self, events: &Vec<Event>, store: &mut ParamStore, rng: &mut SmallRng)
        requires
            old(self).wf(),
            old(store).wf(),
        ensures
            final(self).wf(),
            final(store).wf(),
            final(self).table == old(self).table,
            events_applied(
                events@,
                *old(store),
                old(self).keys,
                *final(store),
                final(self).keys,
            ),
    {
        let ghost mut trace_stores: Seq<ParamStore> = seq![*store];
        let ghost mut trace_pools: Seq<Keys> = seq![self.keys];
        let mut e: usize = 0;
        while e < events.len()
            invariant
                self.wf(),
                store.wf(),
                self.table == old(self).table,
                0 <= e <= events@.len(),
                trace_stores.len() == e + 1,
                trace_pools.len() == e + 1,
                trace_stores[0] == *old(store),
                trace_pools[0] == old(self).keys,
                trace_stores[e as int] == *store,
                trace_pools[e as int] == self.keys,
                forall|i: int|
                    0 <= i < e ==> #[trigger] event_step_rel(
                        events@[i],
                        trace_stores[i],
                        trace_pools[i],
                        trace_stores[i + 1],
                        trace_pools[i + 1],
                    ),
            decreases events@.len() - e,
        {
            match events[e] {
                Event::Param { id, value } => {
                    store.apply_param_event(id, value);
                },
                Event::Midi { status, data1, data2 } => {
                    self.apply_midi_event(status, data1, data2, store, rng);
                },
            }
            proof {
                trace_stores = trace_stores.push(*store);
                trace_pools = trace_pools.push(self.keys);
                assert(event_step_rel(
                    events@[e as int],
                    trace_stores[e as int],
                    trace_pools[e as int],
                    trace_stores[e as int + 1],
                    trace_pools[e as int + 1],
                ));
            }
            e += 1;
        }
        proof {
            assert(events_trace_ok(
                events@,
                trace_stores,
                trace_pools,
                *old(store),
                old(self).keys,
                *store,
                self.keys,
            ));
        }
    }

    /// Zeroes the sub-block's sample range and renders every live voice
    /// additively into it, the oscillators with a positive level active.
    /// The caller needs only read access to the store.
    pub fn render_block(
        &mut self,
        store: &ParamStore,
        output: &mut Vec<i64>,
        start: usize,
        end: usize,
        rng: &mut SmallRng,
    ) -> (rendered: bool)
        requires
            old(self).wf(),
            store.wf(),
            start <= end <= old(output)@.len(),
        ensures
            final(self).wf(),
            final(output)@.len() == old(output)@.len(),
            forall|k: int|
                0 <= k < old(output)@.len() && !(start <= k < end) ==> final(output)@[k] == old(
                    output,
                )@[k],
            final(self).table == old(self).table,
            Keys::render_rel(
                old(self).keys,
                final(self).keys,
                zeroed_spec(old(output)@, start as int, end as int),
                final(output)@,
                start as int,
                end as int,
                store.pitch_offset@,
                store.levels_q@,
                active_oscs_spec(store.levels_q@),
                old(self).table@,
                rendered,
            ),
    {
        let mut i: usize = start;
        while i < end
            invariant
                start <= i <= end,
                end <= output@.len(),
                output@.len() == old(output)@.len(),
                forall|k: int|
                    0 <= k < output@.len() && !(start <= k < i) ==> output@[k] == old(output)@[k],
                forall|k: int| start <= k < i ==> output@[k] == 0,
            decreases end - i,
        {
            output[i] = 0;
            i += 1;
        }
        proof {
            assert(output@ =~= zeroed_spec(old(output)@, start as int, end as int));
        }
        let mut oscs: Vec<usize> = Vec::new();
        if store.get_levels()[0] > 0 {
            oscs.push(0);
        }
        if store.get_levels()[1] > 0 {
            oscs.push(1);
        }
        if store.get_levels()[2] > 0 {
            oscs.push(2);
        }
        proof {
            assert(oscs@ =~= active_oscs_spec(store.levels_q@));
            assert(forall|j: int| 0 <= j < oscs@.len() ==> #[trigger] oscs@[j] < OSC_NR);
            assert(forall|j: int, k: int| 0 <= j < k < oscs@.len() ==> oscs@[j] < oscs@[k]);
        }
        self.keys.render_live(
            output,
            start,
            end,
            store.get_pitch(),
            store.get_levels(),
            rng,
            &oscs,
            &self.table,
        )
    }

    /// Applies every event of one sub-block in order, zeroes the
    /// sub-block's sample range, and renders every live voice additively
    /// into it. Returns whether any voice rendered; the whole call relates
    /// the store, the pool and the buffer by `sub_block_rel`.
    pub fn process_sub_block(
        &mut self,
        events: &Vec<Event>,
        store: &mut ParamStore,
        output: &mut Vec<i64>,
        start: usize,
        end: usize,
        rng: &mut SmallRng,
    ) -> (rendered: bool)
        requires
            old(self).wf(),
            old(store).wf(),
            start <= end <= old(output)@.len(),
        ensures
            final(self).wf(),
            final(store).wf(),
            final(output)@.len() == old(output)@.len(),
            forall|k: int|
                0 <= k < old(output)@.len() && !(start <= k < end) ==> final(output)@[k] == old(
                    output,
                )@[k],
            final(self).table == old(self).table,
            exists|km: Keys|
                #[trigger] Engine::sub_block_rel(
                    events@,
                    *old(store),
                    old(self).keys,
                    *final(store),
                    km,
                    final(self).keys,
                    old(output)@,
                    final(output)@,
                    start as int,
                    end as int,
                    old(self).table@,
                    rendered,
                ),
    {
        self.apply_events(events, store, rng);
        let ghost keys_mid = self.keys;
        let rendered: bool = self.render_block(store, output, start, end, rng);
        proof {
            assert(Engine::sub_block_rel(
                events@,
                *old(store),
                old(self).keys,
                *store,
                keys_mid,
                self.keys,
                old(output)@,
                output@,
                start as int,
                end as int,
                old(self).table@,
                rendered,
            ));
        }
        rendered
    }
}

} // verus!
