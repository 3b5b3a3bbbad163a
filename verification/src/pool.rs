//! The voice pool: a fixed table with exactly one voice per playable note,
//! plus a compact list of the notes currently believed live, used to visit
//! only sounding voices and to prune ended ones cheaply.
//!
//! The live list is an `arrayvec::ArrayVec` with the pool's fixed capacity;
//! its operations stand behind trusted wrappers, and the pool's invariants
//! (indices in range, no note listed twice) are proved above them.

use vstd::prelude::*;
use arrayvec::ArrayVec;
use rand::rngs::SmallRng;
use crate::params::{ParamStore, OSC_NR, PITCH_MAX};
use crate::tuning::{NoteData, TuningTable, KEYS_NR};
use crate::voice::{lemma_rendered_rel, rendered_rel, Key};
use crate::fixed::Q_ONE;

verus! {

#[verifier::external_type_specification]
#[verifier::external_body]
#[verifier::reject_recursive_types(T)]
pub struct ExArrayVec<T, const CAP: usize>(ArrayVec<T, CAP>);

/// The note indices a live list holds, in order.
pub uninterp spec fn alive_elems(v: ArrayVec<usize, KEYS_NR>) -> Seq<usize>;

/// Relies on arrayvec's `ArrayVec::new`: the fresh vector is empty.
#[verifier::external_body]
fn alive_new() -> (r: ArrayVec<usize, KEYS_NR>)
    ensures
        alive_elems(r) == Seq::<usize>::empty(),
{
    ArrayVec::new()
}

/// Relies on arrayvec's `ArrayVec::len`: how many elements are held.
#[verifier::external_body]
fn alive_len(v: &ArrayVec<usize, KEYS_NR>) -> (r: usize)
    ensures
        r == alive_elems(*v).len(),
{
    v.len()
}

/// Relies on indexing through arrayvec's slice view: the element at i.
#[verifier::external_body]
fn alive_get(v: &ArrayVec<usize, KEYS_NR>, i: usize) -> (r: usize)
    requires
        i < alive_elems(*v).len(),
    ensures
        r == alive_elems(*v)[i as int],
{
    v[i]
}

/// Relies on arrayvec's `ArrayVec::push`, which panics only on a full
/// vector: appends the element at the end.
#[verifier::external_body]
fn alive_push(v: &mut ArrayVec<usize, KEYS_NR>, x: usize)
    requires
        alive_elems(*old(v)).len() < KEYS_NR,
    ensures
        alive_elems(*final(v)) == alive_elems(*old(v)).push(x),
{
    v.push(x)
}

/// Relies on arrayvec's `ArrayVec::remove`, which panics only out of
/// bounds: removes the element at i and shifts the rest down.
#[verifier::external_body]
fn alive_remove(v: &mut ArrayVec<usize, KEYS_NR>, i: usize) -> (r: usize)
    requires
        i < alive_elems(*old(v)).len(),
    ensures
        r == alive_elems(*old(v))[i as int],
        alive_elems(*final(v)) == alive_elems(*old(v)).remove(i as int),
{
    v.remove(i)
}

/// Whether a note stands in a live list.
pub open spec fn alive_contains(s: Seq<usize>, n: int) -> bool {
    exists|j: int| 0 <= j < s.len() && s[j] == n
}

/// A list of distinct notes below the pool size cannot outgrow the pool.
proof fn lemma_alive_capacity(s: Seq<usize>)
    requires
        forall|j: int| 0 <= j < s.len() ==> #[trigger] s[j] < KEYS_NR,
        forall|j: int, k: int| 0 <= j < k < s.len() ==> s[j] != s[k],
    ensures
        s.len() <= KEYS_NR,
{
    let m = s.map_values(|u: usize| u as int);
    assert(m.no_duplicates()) by {
        assert forall|i: int, j: int|
            0 <= i < m.len() && 0 <= j < m.len() && i != j implies m[i] != m[j] by {
            if i < j {
                assert(s[i] != s[j]);
            } else {
                assert(s[j] != s[i]);
            }
        }
    }
    m.unique_seq_to_set();
    vstd::set_lib::lemma_int_range(0, KEYS_NR as int);
    assert forall|x: int| m.to_set().contains(x) implies vstd::set_lib::set_int_range(
        0,
        KEYS_NR as int,
    ).contains(x) by {
        let j = choose|j: int| 0 <= j < m.len() && m[j] == x;
        assert(s[j] < KEYS_NR);
    }
    vstd::set_lib::lemma_len_subset(
        m.to_set(),
        vstd::set_lib::set_int_range(0, KEYS_NR as int),
    );
}

/// Whether a note still stands in the unvisited tail of a live list.
pub open spec fn pending_from(s: Seq<usize>, i: int, n: int) -> bool {
    exists|j: int| i <= j < s.len() && s[j] == n
}

/// Removing the entry at the visiting position keeps every structural fact
/// the pruning loop relies on: bounds, distinctness, membership in the
/// unpruned list, and exactly the notes that were pending beyond the
/// removed entry stay pending.
proof fn lemma_remove_keeps(s: Seq<usize>, i: int)
    requires
        0 <= i < s.len(),
        forall|j: int| 0 <= j < s.len() ==> #[trigger] s[j] < KEYS_NR,
        forall|j: int, k: int| 0 <= j < k < s.len() ==> s[j] != s[k],
    ensures
        forall|j: int| 0 <= j < s.remove(i).len() ==> #[trigger] s.remove(i)[j] < KEYS_NR,
        forall|j: int, k: int| 0 <= j < k < s.remove(i).len() ==> s.remove(i)[j] != s.remove(
            i,
        )[k],
        forall|j: int|
            0 <= j < s.remove(i).len() ==> alive_contains(s, #[trigger] s.remove(i)[j] as int),
        forall|n: int| #[trigger] pending_from(s.remove(i), i, n) <==> pending_from(s, i + 1, n),
{
    let r = s.remove(i);
    assert forall|j: int| 0 <= j < r.len() implies #[trigger] r[j] < KEYS_NR by {
        if j < i {
            assert(r[j] == s[j]);
        } else {
            assert(r[j] == s[j + 1]);
        }
    }
    assert forall|j: int, k: int| 0 <= j < k < r.len() implies r[j] != r[k] by {
        if k < i {
        } else if j < i {
            assert(r[k] == s[k + 1]);
        } else {
            assert(r[j] == s[j + 1]);
            assert(r[k] == s[k + 1]);
        }
    }
    assert forall|j: int| 0 <= j < r.len() implies alive_contains(s, #[trigger] r[j] as int) by {
        if j < i {
            assert(s[j] == r[j]);
        } else {
            assert(s[j + 1] == r[j]);
        }
    }
    assert forall|n: int| #[trigger] pending_from(r, i, n) implies pending_from(s, i + 1, n) by {
        let j = choose|j: int| i <= j < r.len() && r[j] == n;
        assert(s[j + 1] == n);
    }
    assert forall|n: int| pending_from(s, i + 1, n) implies #[trigger] pending_from(r, i, n) by {
        let j = choose|j: int| i + 1 <= j < s.len() && s[j] == n;
        assert(r[j - 1] == n);
    }
}

/// The voice pool.
pub struct Keys {
    /// The notes currently believed live, each at most once.
    pub alive_keys: ArrayVec<usize, KEYS_NR>,
    /// One voice per playable note, at its note's index.
    pub keys: Vec<Key>,
}

impl Keys {
    /// The live list's contents, for specification purposes.
    pub open spec fn alive(self) -> Seq<usize> {
        alive_elems(self.alive_keys)
    }

    /// One well-formed voice per note, each knowing its own note; every
    /// live entry a distinct note in range.
    pub open spec fn wf(self) -> bool {
        &&& self.keys@.len() == KEYS_NR
        &&& forall|i: int| 0 <= i < KEYS_NR ==> (#[trigger] self.keys@[i]).wf()
        &&& forall|i: int| 0 <= i < KEYS_NR ==> (#[trigger] self.keys@[i]).note == i
        &&& forall|j: int| 0 <= j < self.alive().len() ==> (#[trigger] self.alive()[j]) < KEYS_NR
        &&& forall|j: int, k: int| 0 <= j < k < self.alive().len() ==> self.alive()[j]
            != self.alive()[k]
    }

    /// A fresh pool: one silent voice per note, nothing live.
    pub fn new() -> (r: Keys)
        ensures
            r.wf(),
            r.alive() == Seq::<usize>::empty(),
            forall|i: int| 0 <= i < KEYS_NR ==> !(#[trigger] r.keys@[i]).is_on_spec(),
    {
        let mut keys: Vec<Key> = Vec::new();
        let mut note: usize = 0;
        while note < KEYS_NR
            invariant
                0 <= note <= KEYS_NR,
                keys@.len() == note,
                forall|i: int| 0 <= i < note ==> (#[trigger] keys@[i]).wf(),
                forall|i: int| 0 <= i < note ==> (#[trigger] keys@[i]).note == i,
                forall|i: int| 0 <= i < note ==> !(#[trigger] keys@[i]).is_on_spec(),
            decreases KEYS_NR - note,
        {
            keys.push(Key::new(note));
            note += 1;
        }
        Keys { alive_keys: alive_new(), keys }
    }

    /// Starts (or retriggers) the note's voice and makes sure the note
    /// stands in the live list exactly once. A zero velocity ends the voice
    /// instead; the note still enters the list, and the next visit prunes
    /// it.
    pub fn on(&mut self, note: usize, velocity: u8, params: &ParamStore, rng: &mut SmallRng)
        requires
            old(self).wf(),
            note < KEYS_NR,
            params.wf(),
        ensures
            final(self).wf(),
            alive_contains(final(self).alive(), note as int),
            alive_contains(old(self).alive(), note as int) ==> final(self).alive() == old(
                self,
            ).alive(),
            !alive_contains(old(self).alive(), note as int) ==> final(self).alive() == old(
                self,
            ).alive().push(note),
            forall|i: int|
                0 <= i < KEYS_NR && i != note ==> #[trigger] final(self).keys@[i] == old(
                    self,
                ).keys@[i],
            Key::on_rel(old(self).keys@[note as int], final(self).keys@[note as int], velocity, *params),
            velocity > 0 ==> final(self).keys@[note as int].is_on_spec(),
            velocity > 0 ==> forall|k: int|
                0 <= k < OSC_NR ==> (#[trigger] final(self).keys@[note as int].adsr@[k]).state
                    is Attack,
            velocity == 0 ==> !final(self).keys@[note as int].is_on_spec(),
    {
        let voice: &mut Key = &mut self.keys[note];
        voice.on(velocity, params, rng);
        let listed: bool = self.alive_has(note);
        if !listed {
            proof {
                assert(self.alive() == old(self).alive());
                lemma_alive_capacity(self.alive());
                if self.alive().len() == KEYS_NR as int {
                    lemma_alive_capacity(self.alive().push(note));
                }
            }
            alive_push(&mut self.alive_keys, note);
        }
        proof {
            if !listed {
                let post = self.alive();
                let pre = old(self).alive();
                assert(post == pre.push(note));
                assert(post[post.len() - 1] == note);
                assert forall|j: int| 0 <= j < post.len() implies (#[trigger] post[j])
                    < KEYS_NR by {
                    if j < post.len() - 1 {
                        assert(pre[j] < KEYS_NR);
                    }
                }
                assert forall|j: int, k: int| 0 <= j < k < post.len() implies post[j]
                    != post[k] by {
                    if k < post.len() - 1 {
                        assert(pre[j] != pre[k]);
                    } else {
                        assert(pre[j] != note);
                    }
                }
            }
            assert(self.wf());
        }
    }

    /// Whether a note already stands in the live list.
    fn alive_has(&self, note: usize) -> (r: bool)
        ensures
            r == alive_contains(self.alive(), note as int),
    {
        let n: usize = alive_len(&self.alive_keys);
        let mut i: usize = 0;
        while i < n
            invariant
                0 <= i <= n,
                n == self.alive().len(),
                forall|j: int| 0 <= j < i ==> self.alive()[j] != note,
            decreases n - i,
        {
            if alive_get(&self.alive_keys, i) == note {
                return true;
            }
            i += 1;
        }
        false
    }

    /// Sends the note's voice into its release phase.
    pub fn release(&mut self, note: usize)
        requires
            old(self).wf(),
            note < KEYS_NR,
        ensures
            final(self).wf(),
            final(self).alive() == old(self).alive(),
            forall|i: int|
                0 <= i < KEYS_NR && i != note ==> #[trigger] final(self).keys@[i] == old(
                    self,
                ).keys@[i],
            Key::release_rel(old(self).keys@[note as int], final(self).keys@[note as int]),
    {
        let voice: &mut Key = &mut self.keys[note];
        voice.release();
        proof {
            assert(self.alive() == old(self).alive());
        }
    }

    /// Visits every live entry and forcibly ends its voice (the
    /// all-sounds-off path). A voice found already off is ended too and its
    /// entry leaves the list; the others stay listed until the next visit
    /// prunes them.
    pub fn end_live(&mut self)
        requires
            old(self).wf(),
        ensures
            final(self).wf(),
            forall|n: int|
                0 <= n < KEYS_NR && !alive_contains(old(self).alive(), n) ==> #[trigger] final(self).keys@[n] == old(self).keys@[n],
            forall|n: int|
                0 <= n < KEYS_NR && alive_contains(old(self).alive(), n) ==> Key::end_rel(
                    old(self).keys@[n],
                    #[trigger] final(self).keys@[n],
                ) && !final(self).keys@[n].is_on_spec(),
            forall|j: int|
                0 <= j < final(self).alive().len() ==> alive_contains(
                    old(self).alive(),
                    #[trigger] final(self).alive()[j] as int,
                ),
    {
        let mut i: usize = 0;
        while i < alive_len(&self.alive_keys)
            invariant
                self.wf(),
                0 <= i <= self.alive().len(),
                forall|j: int|
                    0 <= j < self.alive().len() ==> alive_contains(
                        old(self).alive(),
                        #[trigger] self.alive()[j] as int,
                    ),
                forall|j: int|
                    i <= j < self.alive().len() ==> #[trigger] self.keys@[self.alive()[j] as int]
                        == old(self).keys@[self.alive()[j] as int],
                forall|n: int|
                    0 <= n < KEYS_NR && !alive_contains(old(self).alive(), n)
                        ==> #[trigger] self.keys@[n] == old(self).keys@[n],
                forall|n: int|
                    0 <= n < KEYS_NR && alive_contains(old(self).alive(), n) && !pending_from(
                        self.alive(),
                        i as int,
                        n,
                    ) ==> Key::end_rel(old(self).keys@[n], #[trigger] self.keys@[n])
                        && !self.keys@[n].is_on_spec(),
            decreases self.alive().len() - i,
        {
            let note: usize = alive_get(&self.alive_keys, i);
            let ghost pre_self = *self;
            let on: bool = self.keys[note].is_on();
            let voice: &mut Key = &mut self.keys[note];
            voice.end();
            proof {
                assert(self.alive() == pre_self.alive());
                assert(pre_self.keys@[note as int] == old(self).keys@[note as int]);
            }
            if on {
                proof {
                    assert forall|n: int|
                        0 <= n < KEYS_NR && alive_contains(old(self).alive(), n) && !pending_from(
                            self.alive(),
                            i as int + 1,
                            n,
                        ) implies Key::end_rel(old(self).keys@[n], #[trigger] self.keys@[n])
                        && !self.keys@[n].is_on_spec() by {
                        if n != note as int {
                            assert(self.keys@[n] == pre_self.keys@[n]);
                            if pending_from(pre_self.alive(), i as int, n) {
                                let j = choose|j: int|
                                    i <= j < pre_self.alive().len() && pre_self.alive()[j] == n;
                                assert(j != i);
                                assert(pending_from(self.alive(), i as int + 1, n));
                            }
                        }
                    }
                }
                i += 1;
            } else {
                proof {
                    lemma_remove_keeps(self.alive(), i as int);
                }
                alive_remove(&mut self.alive_keys, i);
                proof {
                    assert(self.alive() == pre_self.alive().remove(i as int));
                    assert forall|n: int|
                        0 <= n < KEYS_NR && alive_contains(old(self).alive(), n) && !pending_from(
                            self.alive(),
                            i as int,
                            n,
                        ) implies Key::end_rel(old(self).keys@[n], #[trigger] self.keys@[n])
                        && !self.keys@[n].is_on_spec() by {
                        if n != note as int {
                            assert(self.keys@[n] == pre_self.keys@[n]);
                            if pending_from(pre_self.alive(), i as int, n) {
                                let j = choose|j: int|
                                    i <= j < pre_self.alive().len() && pre_self.alive()[j] == n;
                                assert(j != i);
                                assert(pending_from(pre_self.alive(), i as int + 1, n));
                            }
                        }
                    }
                    assert forall|j: int|
                        i as int <= j < self.alive().len() implies #[trigger] self.keys@[
                        self.alive()[j] as int] == old(self).keys@[self.alive()[j] as int] by {
                        assert(self.alive()[j] == pre_self.alive()[j + 1]);
                        assert(pre_self.alive()[j + 1] as int != note as int);
                    }
                }
            }
        }
    }

    /// Visits every live entry and sends its voice into release (the
    /// all-notes-off path); a voice found already off is ended and its
    /// entry pruned from the list.
    pub fn release_live(&mut self)
        requires
            old(self).wf(),
        ensures
            final(self).wf(),
            forall|n: int|
                0 <= n < KEYS_NR && !alive_contains(old(self).alive(), n)
                    ==> #[trigger] final(self).keys@[n] == old(self).keys@[n],
            forall|n: int|
                0 <= n < KEYS_NR && alive_contains(old(self).alive(), n) && old(
                    self,
                ).keys@[n].is_on_spec() ==> Key::release_rel(
                    old(self).keys@[n],
                    #[trigger] final(self).keys@[n],
                ),
            forall|n: int|
                0 <= n < KEYS_NR && alive_contains(old(self).alive(), n) && !old(
                    self,
                ).keys@[n].is_on_spec() ==> Key::end_rel(
                    old(self).keys@[n],
                    #[trigger] final(self).keys@[n],
                ),
            forall|j: int|
                0 <= j < final(self).alive().len() ==> alive_contains(
                    old(self).alive(),
                    #[trigger] final(self).alive()[j] as int,
                ),
    {
        let mut i: usize = 0;
        while i < alive_len(&self.alive_keys)
            invariant
                self.wf(),
                0 <= i <= self.alive().len(),
                forall|j: int|
                    0 <= j < self.alive().len() ==> alive_contains(
                        old(self).alive(),
                        #[trigger] self.alive()[j] as int,
                    ),
                forall|j: int|
                    i <= j < self.alive().len() ==> #[trigger] self.keys@[self.alive()[j] as int]
                        == old(self).keys@[self.alive()[j] as int],
                forall|n: int|
                    0 <= n < KEYS_NR && !alive_contains(old(self).alive(), n)
                        ==> #[trigger] self.keys@[n] == old(self).keys@[n],
                forall|n: int|
                    0 <= n < KEYS_NR && alive_contains(old(self).alive(), n) && !pending_from(
                        self.alive(),
                        i as int,
                        n,
                    ) && old(self).keys@[n].is_on_spec() ==> Key::release_rel(
                        old(self).keys@[n],
                        #[trigger] self.keys@[n],
                    ),
                forall|n: int|
                    0 <= n < KEYS_NR && alive_contains(old(self).alive(), n) && !pending_from(
                        self.alive(),
                        i as int,
                        n,
                    ) && !old(self).keys@[n].is_on_spec() ==> Key::end_rel(
                        old(self).keys@[n],
                        #[trigger] self.keys@[n],
                    ),
            decreases self.alive().len() - i,
        {
            let note: usize = alive_get(&self.alive_keys, i);
            let ghost pre_self = *self;
            let on: bool = self.keys[note].is_on();
            if on {
                let voice: &mut Key = &mut self.keys[note];
                voice.release();
                proof {
                    assert(self.alive() == pre_self.alive());
                    assert(pre_self.keys@[note as int] == old(self).keys@[note as int]);
                    assert forall|n: int|
                        0 <= n < KEYS_NR && alive_contains(old(self).alive(), n) && !pending_from(
                            self.alive(),
                            i as int + 1,
                            n,
                        ) && n != note as int implies self.keys@[n] == pre_self.keys@[n]
                        && !pending_from(pre_self.alive(), i as int, n) by {
                        if pending_from(pre_self.alive(), i as int, n) {
                            let j = choose|j: int|
                                i <= j < pre_self.alive().len() && pre_self.alive()[j] == n;
                            assert(j != i);
                            assert(pending_from(self.alive(), i as int + 1, n));
                        }
                    }
                }
                i += 1;
            } else {
                let voice: &mut Key = &mut self.keys[note];
                voice.end();
                proof {
                    assert(self.alive() == pre_self.alive());
                    assert(pre_self.keys@[note as int] == old(self).keys@[note as int]);
                    lemma_remove_keeps(self.alive(), i as int);
                }
                alive_remove(&mut self.alive_keys, i);
                proof {
                    assert(self.alive() == pre_self.alive().remove(i as int));
                    assert forall|n: int|
                        0 <= n < KEYS_NR && alive_contains(old(self).alive(), n) && !pending_from(
                            self.alive(),
                            i as int,
                            n,
                        ) && n != note as int implies self.keys@[n] == pre_self.keys@[n]
                        && !pending_from(pre_self.alive(), i as int, n) by {
                        if pending_from(pre_self.alive(), i as int, n) {
                            let j = choose|j: int|
                                i <= j < pre_self.alive().len() && pre_self.alive()[j] == n;
                            assert(j != i);
                            assert(pending_from(pre_self.alive(), i as int + 1, n));
                        }
                    }
                    assert forall|j: int|
                        i as int <= j < self.alive().len() implies #[trigger] self.keys@[
                        self.alive()[j] as int] == old(self).keys@[self.alive()[j] as int] by {
                        assert(self.alive()[j] == pre_self.alive()[j + 1]);
                        assert(pre_self.alive()[j + 1] as int != note as int);
                    }
                }
            }
        }
    }

    /// What one pool visit does: samples outside the range stay; voices
    /// never listed stay; listed voices found off are reset (pruned) and
    /// every entry still listed afterwards was a sounding voice of the old
    /// list; every sounding listed voice stays listed and advances by one
    /// whole-block render of its own modulation mode; `rendered` says
    /// exactly whether any sounding voice was listed, and without one the
    /// buffer is untouched.
    pub open spec fn render_rel(
        pre: Keys,
        post: Keys,
        out_pre: Seq<i64>,
        out_post: Seq<i64>,
        start: int,
        end: int,
        pitch: Seq<u64>,
        levels: Seq<i64>,
        oscs: Seq<usize>,
        table: Seq<NoteData>,
        rendered: bool,
    ) -> bool {
        &&& out_post.len() == out_pre.len()
        &&& forall|k: int| 0 <= k < out_pre.len() && !(start <= k < end) ==> out_post[k] == out_pre[k]
        &&& forall|n: int|
            0 <= n < KEYS_NR && !alive_contains(pre.alive(), n) ==> #[trigger] post.keys@[n]
                == pre.keys@[n]
        &&& forall|n: int|
            0 <= n < KEYS_NR && alive_contains(pre.alive(), n) && !pre.keys@[n].is_on_spec()
                ==> Key::end_rel(pre.keys@[n], #[trigger] post.keys@[n])
        &&& forall|j: int|
            0 <= j < post.alive().len() ==> alive_contains(
                pre.alive(),
                #[trigger] post.alive()[j] as int,
            )
        &&& forall|j: int|
            0 <= j < post.alive().len() ==> pre.keys@[#[trigger] post.alive()[j] as int].is_on_spec()
        &&& forall|n: int|
            0 <= n < KEYS_NR && alive_contains(pre.alive(), n) && (#[trigger] pre.keys@[n]).is_on_spec()
                ==> alive_contains(post.alive(), n) && rendered_rel(
                pre.keys@[n],
                post.keys@[n],
                start,
                end,
                pitch,
                levels,
                oscs,
                table,
            )
        &&& rendered == exists|n: int|
            0 <= n < KEYS_NR && alive_contains(pre.alive(), n) && pre.keys@[n].is_on_spec()
        &&& (!rendered ==> out_post == out_pre)
    }

    /// Visits every live entry: a voice still sounding renders additively
    /// into `output[start..end]` and stays listed; a voice that has ended
    /// is reset and pruned from the list. Returns whether any voice
    /// rendered; the whole visit relates the pool and the buffer by
    /// `render_rel`.
    pub fn render_live(
        &mut self,
        output: &mut Vec<i64>,
        start: usize,
        end: usize,
        pitch: &Vec<u64>,
        levels: &Vec<i64>,
        rng: &mut SmallRng,
        oscs: &Vec<usize>,
        table: &TuningTable,
    ) -> (rendered: bool)
        requires
            old(self).wf(),
            start <= end <= old(output)@.len(),
            pitch@.len() == OSC_NR,
            forall|i: int| 0 <= i < OSC_NR ==> #[trigger] pitch@[i] <= PITCH_MAX,
            levels@.len() == OSC_NR,
            forall|i: int| 0 <= i < OSC_NR ==> 0 <= #[trigger] levels@[i] <= Q_ONE,
            forall|j: int| 0 <= j < oscs@.len() ==> #[trigger] oscs@[j] < OSC_NR,
            forall|j: int, k: int| 0 <= j < k < oscs@.len() ==> oscs@[j] < oscs@[k],
            table.wf(),
        ensures
            final(self).wf(),
            final(output)@.len() == old(output)@.len(),
            forall|k: int|
                0 <= k < old(output)@.len() && !(start <= k < end) ==> final(output)@[k] == old(
                    output,
                )@[k],
            forall|n: int|
                0 <= n < KEYS_NR && !alive_contains(old(self).alive(), n)
                    ==> #[trigger] final(self).keys@[n] == old(self).keys@[n],
            forall|n: int|
                0 <= n < KEYS_NR && alive_contains(old(self).alive(), n) && !old(
                    self,
                ).keys@[n].is_on_spec() ==> Key::end_rel(
                    old(self).keys@[n],
                    #[trigger] final(self).keys@[n],
                ),
            forall|j: int|
                0 <= j < final(self).alive().len() ==> alive_contains(
                    old(self).alive(),
                    #[trigger] final(self).alive()[j] as int,
                ),
            forall|j: int|
                0 <= j < final(self).alive().len() ==> old(self).keys@[#[trigger] final(self).alive()[j] as int].is_on_spec(),
            forall|n: int|
                0 <= n < KEYS_NR && alive_contains(old(self).alive(), n) && (#[trigger] old(
                    self,
                ).keys@[n]).is_on_spec() ==> alive_contains(final(self).alive(), n)
                    && rendered_rel(
                    old(self).keys@[n],
                    final(self).keys@[n],
                    start as int,
                    end as int,
                    pitch@,
                    levels@,
                    oscs@,
                    table@,
                ),
            rendered == exists|n: int|
                0 <= n < KEYS_NR && alive_contains(old(self).alive(), n) && old(
                    self,
                ).keys@[n].is_on_spec(),
            !rendered ==> final(output)@ == old(output)@,
            Keys::render_rel(
                *old(self),
                *final(self),
                old(output)@,
                final(output)@,
                start as int,
                end as int,
                pitch@,
                levels@,
                oscs@,
                table@,
                rendered,
            ),
    {
        let mut rendered: bool = false;
        let mut i: usize = 0;
        proof {
            assert forall|n: int| alive_contains(self.alive(), n) implies pending_from(
                self.alive(),
                0,
                n,
            ) by {
                let j = choose|j: int| 0 <= j < self.alive().len() && self.alive()[j] == n;
                assert(0 <= j && self.alive()[j] == n);
            }
        }
        while i < alive_len(&self.alive_keys)
            invariant
                self.wf(),
                0 <= i <= self.alive().len(),
                start <= end <= output@.len(),
                output@.len() == old(output)@.len(),
                forall|k: int|
                    0 <= k < output@.len() && !(start <= k < end) ==> output@[k] == old(output)@[k],
                pitch@.len() == OSC_NR,
                forall|ii: int| 0 <= ii < OSC_NR ==> #[trigger] pitch@[ii] <= PITCH_MAX,
                levels@.len() == OSC_NR,
                forall|ii: int| 0 <= ii < OSC_NR ==> 0 <= #[trigger] levels@[ii] <= Q_ONE,
                forall|jj: int| 0 <= jj < oscs@.len() ==> #[trigger] oscs@[jj] < OSC_NR,
                forall|jj: int, kk: int| 0 <= jj < kk < oscs@.len() ==> oscs@[jj] < oscs@[kk],
                table.wf(),
                forall|j: int|
                    0 <= j < self.alive().len() ==> alive_contains(
                        old(self).alive(),
                        #[trigger] self.alive()[j] as int,
                    ),
                forall|j: int|
                    i <= j < self.alive().len() ==> #[trigger] self.keys@[self.alive()[j] as int]
                        == old(self).keys@[self.alive()[j] as int],
                forall|n: int|
                    0 <= n < KEYS_NR && !alive_contains(old(self).alive(), n)
                        ==> #[trigger] self.keys@[n] == old(self).keys@[n],
                forall|n: int|
                    0 <= n < KEYS_NR && alive_contains(old(self).alive(), n) && !pending_from(
                        self.alive(),
                        i as int,
                        n,
                    ) && !old(self).keys@[n].is_on_spec() ==> Key::end_rel(
                        old(self).keys@[n],
                        #[trigger] self.keys@[n],
                    ),
                forall|n: int|
                    0 <= n < KEYS_NR && alive_contains(old(self).alive(), n) && !pending_from(
                        self.alive(),
                        i as int,
                        n,
                    ) && (#[trigger] old(self).keys@[n]).is_on_spec() ==> alive_contains(
                        self.alive(),
                        n,
                    ) && rendered_rel(
                        old(self).keys@[n],
                        self.keys@[n],
                        start as int,
                        end as int,
                        pitch@,
                        levels@,
                        oscs@,
                        table@,
                    ),
                forall|j: int|
                    0 <= j < i ==> old(self).keys@[#[trigger] self.alive()[j] as int].is_on_spec(),
                rendered == exists|n: int|
                    0 <= n < KEYS_NR && alive_contains(old(self).alive(), n) && !pending_from(
                        self.alive(),
                        i as int,
                        n,
                    ) && old(self).keys@[n].is_on_spec(),
                !rendered ==> output@ == old(output)@,
            decreases self.alive().len() - i,
        {
            let note: usize = alive_get(&self.alive_keys, i);
            let ghost pre_self = *self;
            let ghost pre_out = output@;
            let on: bool = self.keys[note].is_on();
            if on {
                rendered = true;
                let voice: &mut Key = &mut self.keys[note];
                voice.process(output, start, end, pitch, levels, rng, oscs, table);
                proof {
                    assert(self.alive() == pre_self.alive());
                    assert(pre_self.keys@[note as int] == old(self).keys@[note as int]);
                    lemma_rendered_rel(
                        old(self).keys@[note as int],
                        self.keys@[note as int],
                        pre_out,
                        output@,
                        start as int,
                        end as int,
                        pitch@,
                        levels@,
                        oscs@,
                        table@,
                    );
                    assert(!pending_from(self.alive(), i as int + 1, note as int)) by {
                        if pending_from(self.alive(), i as int + 1, note as int) {
                            let j = choose|j: int|
                                i + 1 <= j < self.alive().len() && self.alive()[j] == note;
                            assert(self.alive()[j] == self.alive()[i as int]);
                        }
                    }
                    assert(self.alive()[i as int] == note);
                    assert(alive_contains(self.alive(), note as int));
                    assert(alive_contains(old(self).alive(), note as int));
                    assert(old(self).keys@[note as int].is_on_spec());
                    assert forall|n: int|
                        0 <= n < KEYS_NR && alive_contains(old(self).alive(), n) && !pending_from(
                            self.alive(),
                            i as int + 1,
                            n,
                        ) && old(self).keys@[n].is_on_spec() && n != note as int implies
                        alive_contains(self.alive(), n) && rendered_rel(
                        old(self).keys@[n],
                        self.keys@[n],
                        start as int,
                        end as int,
                        pitch@,
                        levels@,
                        oscs@,
                        table@,
                    ) by {
                        assert(!pending_from(pre_self.alive(), i as int, n)) by {
                            if pending_from(pre_self.alive(), i as int, n) {
                                let j = choose|j: int|
                                    i <= j < pre_self.alive().len() && pre_self.alive()[j] == n;
                                assert(j != i);
                                assert(pending_from(self.alive(), i as int + 1, n));
                            }
                        }
                        assert(alive_contains(pre_self.alive(), n) && rendered_rel(
                            old(self).keys@[n],
                            pre_self.keys@[n],
                            start as int,
                            end as int,
                            pitch@,
                            levels@,
                            oscs@,
                            table@,
                        ));
                        assert(self.keys@[n] == pre_self.keys@[n]);
                    }
                    assert forall|n: int|
                        0 <= n < KEYS_NR && alive_contains(old(self).alive(), n) && !pending_from(
                            self.alive(),
                            i as int + 1,
                            n,
                        ) && n != note as int implies self.keys@[n] == pre_self.keys@[n]
                        && !pending_from(pre_self.alive(), i as int, n) by {
                        if pending_from(pre_self.alive(), i as int, n) {
                            let j = choose|j: int|
                                i <= j < pre_self.alive().len() && pre_self.alive()[j] == n;
                            assert(j != i);
                            assert(pending_from(self.alive(), i as int + 1, n));
                        }
                    }
                }
                i += 1;
            } else {
                let voice: &mut Key = &mut self.keys[note];
                voice.end();
                proof {
                    assert(self.alive() == pre_self.alive());
                    assert(pre_self.keys@[note as int] == old(self).keys@[note as int]);
                    lemma_remove_keeps(self.alive(), i as int);
                }
                alive_remove(&mut self.alive_keys, i);
                proof {
                    assert(self.alive() == pre_self.alive().remove(i as int));
                    assert(!old(self).keys@[note as int].is_on_spec());
                    assert forall|n: int|
                        0 <= n < KEYS_NR && alive_contains(pre_self.alive(), n) && n != note as int
                        implies alive_contains(self.alive(), n) by {
                        let j = choose|j: int|
                            0 <= j < pre_self.alive().len() && pre_self.alive()[j] == n;
                        assert(j != i);
                        if j < i {
                            assert(self.alive()[j] == n);
                        } else {
                            assert(self.alive()[j - 1] == n);
                        }
                    }
                    assert forall|j: int| 0 <= j < i implies old(self).keys@[#[trigger] self.alive()[
                    j] as int].is_on_spec() by {
                        assert(self.alive()[j] == pre_self.alive()[j]);
                    }
                    assert forall|n: int|
                        0 <= n < KEYS_NR && alive_contains(old(self).alive(), n) && !pending_from(
                            self.alive(),
                            i as int,
                            n,
                        ) && old(self).keys@[n].is_on_spec() implies alive_contains(
                        self.alive(),
                        n,
                    ) && rendered_rel(
                        old(self).keys@[n],
                        self.keys@[n],
                        start as int,
                        end as int,
                        pitch@,
                        levels@,
                        oscs@,
                        table@,
                    ) by {
                        assert(n != note as int);
                        assert(!pending_from(pre_self.alive(), i as int, n)) by {
                            if pending_from(pre_self.alive(), i as int, n) {
                                let j = choose|j: int|
                                    i <= j < pre_self.alive().len() && pre_self.alive()[j] == n;
                                assert(j != i);
                                assert(pending_from(pre_self.alive(), i as int + 1, n));
                                assert(pending_from(self.alive(), i as int, n));
                            }
                        }
                        assert(alive_contains(pre_self.alive(), n) && rendered_rel(
                            old(self).keys@[n],
                            pre_self.keys@[n],
                            start as int,
                            end as int,
                            pitch@,
                            levels@,
                            oscs@,
                            table@,
                        ));
                        assert(self.keys@[n] == pre_self.keys@[n]);
                    }
                    assert forall|n: int|
                        0 <= n < KEYS_NR && alive_contains(old(self).alive(), n) && !pending_from(
                            self.alive(),
                            i as int,
                            n,
                        ) && n != note as int implies self.keys@[n] == pre_self.keys@[n]
                        && !pending_from(pre_self.alive(), i as int, n) by {
                        if pending_from(pre_self.alive(), i as int, n) {
                            let j = choose|j: int|
                                i <= j < pre_self.alive().len() && pre_self.alive()[j] == n;
                            assert(j != i);
                            assert(pending_from(pre_self.alive(), i as int + 1, n));
                        }
                    }
                    assert forall|j: int|
                        i as int <= j < self.alive().len() implies #[trigger] self.keys@[
                        self.alive()[j] as int] == old(self).keys@[self.alive()[j] as int] by {
                        assert(self.alive()[j] == pre_self.alive()[j + 1]);
                        assert(pre_self.alive()[j + 1] as int != note as int);
                    }
                }
            }
        }
        proof {
            assert forall|n: int|
                0 <= n < KEYS_NR && alive_contains(old(self).alive(), n) && old(
                    self,
                ).keys@[n].is_on_spec() implies alive_contains(self.alive(), n) && rendered_rel(
                old(self).keys@[n],
                #[trigger] self.keys@[n],
                start as int,
                end as int,
                pitch@,
                levels@,
                oscs@,
                table@,
            ) by {
                assert(!pending_from(self.alive(), i as int, n));
            }
        }
        rendered
    }
}

} // verus!
