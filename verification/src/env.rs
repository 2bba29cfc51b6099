//! The environment: a store of frames, each a name-to-value table with an
//! optional enclosing frame. Frames are kept in one arena and named by
//! index, so a frame can be shared by the interpreter and by any number of
//! captured closures; a frame's enclosing frame always has a smaller index.
use vstd::prelude::*;

use crate::value::{SpValue, Value};

verus! {

#[derive(Debug)]
pub struct Frame {
    pub entries: Vec<(String, Value)>,
    pub enclosing: Option<usize>,
}

#[verifier::ext_equal]
pub struct SpFrame {
    pub entries: Seq<(Seq<char>, SpValue)>,
    pub enclosing: Option<int>,
}

/// The images of a frame's entries.
pub open spec fn entries_view(v: Seq<(String, Value)>) -> Seq<(Seq<char>, SpValue)> {
    v.map_values(|p: (String, Value)| (p.0@, p.1@))
}

impl View for Frame {
    type V = SpFrame;

    open spec fn view(&self) -> SpFrame {
        SpFrame {
            entries: entries_view(self.entries@),
            enclosing: match self.enclosing {
                Some(e) => Some(e as int),
                None => None,
            },
        }
    }
}

/// The arena of frames. Frame 0 is the global frame.
#[derive(Debug)]
pub struct Env {
    pub frames: Vec<Frame>,
}

impl View for Env {
    type V = Seq<SpFrame>;

    open spec fn view(&self) -> Seq<SpFrame> {
        self.frames@.map_values(|f: Frame| f@)
    }
}

/// Every value in a frame's table is valid for a store of `n` frames.
pub open spec fn sp_entries_ok(entries: Seq<(Seq<char>, SpValue)>, n: int) -> bool {
    forall|i: int| 0 <= i < entries.len() ==> crate::value::sp_value_ok((#[trigger] entries[i]).1, n)
}

/// Every value anywhere in the store is valid for the store itself.
pub open spec fn sp_frames_ok(frames: Seq<SpFrame>) -> bool {
    forall|i: int|
        0 <= i < frames.len() ==> sp_entries_ok((#[trigger] frames[i]).entries, frames.len() as int)
}

/// The index of the first entry named `name` at or after position `i`.
pub open spec fn sp_find_from(
    entries: Seq<(Seq<char>, SpValue)>,
    name: Seq<char>,
    i: int,
) -> Option<int>
    decreases entries.len() - i,
    when 0 <= i <= entries.len()
{
    if i >= entries.len() {
        None
    } else if entries[i].0 == name {
        Some(i)
    } else {
        sp_find_from(entries, name, i + 1)
    }
}

/// The value bound to `name` in one frame's table, if any.
pub open spec fn sp_frame_get(entries: Seq<(Seq<char>, SpValue)>, name: Seq<char>) -> Option<
    SpValue,
> {
    match sp_find_from(entries, name, 0) {
        Some(j) => Some(entries[j].1),
        None => None,
    }
}

/// Bind `name` to `value` in one frame's table: overwrite the existing
/// entry, or append a new one.
pub open spec fn sp_frame_set(
    entries: Seq<(Seq<char>, SpValue)>,
    name: Seq<char>,
    value: SpValue,
) -> Seq<(Seq<char>, SpValue)> {
    match sp_find_from(entries, name, 0) {
        Some(j) => entries.update(j, (name, value)),
        None => entries.push((name, value)),
    }
}

/// Every frame's enclosing frame, if any, has a strictly smaller index:
/// the chains are acyclic and always reach a root.
pub open spec fn sp_env_wf(frames: Seq<SpFrame>) -> bool {
    forall|i: int|
        0 <= i < frames.len() ==> match (#[trigger] frames[i]).enclosing {
            Some(p) => 0 <= p < i,
            None => true,
        }
}

/// Search the chain from frame `e` outward for `name`.
pub open spec fn sp_get(frames: Seq<SpFrame>, e: int, name: Seq<char>) -> Option<SpValue>
    decreases e,
    when 0 <= e < frames.len() && sp_env_wf(frames)
{
    match sp_frame_get(frames[e].entries, name) {
        Some(v) => Some(v),
        None => match frames[e].enclosing {
            Some(p) => sp_get(frames, p, name),
            None => None,
        },
    }
}

/// Search the chain from frame `e` outward and overwrite the binding of
/// `name` where it is found; `None` when no frame of the chain binds it.
pub open spec fn sp_assign(frames: Seq<SpFrame>, e: int, name: Seq<char>, value: SpValue) -> Option<
    Seq<SpFrame>,
>
    decreases e,
    when 0 <= e < frames.len() && sp_env_wf(frames)
{
    if sp_frame_get(frames[e].entries, name) is Some {
        Some(
            frames.update(
                e,
                SpFrame {
                    entries: sp_frame_set(frames[e].entries, name, value),
                    enclosing: frames[e].enclosing,
                },
            ),
        )
    } else {
        match frames[e].enclosing {
            Some(p) => sp_assign(frames, p, name, value),
            None => None,
        }
    }
}

/// The frame reached from `e` by following exactly `depth` enclosing links.
pub open spec fn sp_ancestor(frames: Seq<SpFrame>, e: int, depth: nat) -> Option<int>
    decreases depth,
{
    if !(0 <= e < frames.len()) {
        None
    } else if depth == 0 {
        Some(e)
    } else {
        match frames[e].enclosing {
            Some(p) => sp_ancestor(frames, p, (depth - 1) as nat),
            None => None,
        }
    }
}

/// Read `name` in the frame exactly `depth` links out from `e`.
pub open spec fn sp_get_at(frames: Seq<SpFrame>, e: int, depth: nat, name: Seq<char>) -> Option<
    SpValue,
> {
    match sp_ancestor(frames, e, depth) {
        Some(t) => sp_frame_get(frames[t].entries, name),
        None => None,
    }
}

/// Bind `name` in the frame exactly `depth` links out from `e`,
/// unconditionally; `None` only when the chain is shorter than `depth`.
pub open spec fn sp_assign_at(
    frames: Seq<SpFrame>,
    e: int,
    depth: nat,
    name: Seq<char>,
    value: SpValue,
) -> Option<Seq<SpFrame>> {
    match sp_ancestor(frames, e, depth) {
        Some(t) => Some(
            frames.update(
                t,
                SpFrame {
                    entries: sp_frame_set(frames[t].entries, name, value),
                    enclosing: frames[t].enclosing,
                },
            ),
        ),
        None => None,
    }
}

/// Bind `name` to `value` in frame `e` itself.
pub open spec fn sp_define(frames: Seq<SpFrame>, e: int, name: Seq<char>, value: SpValue) -> Seq<
    SpFrame,
> {
    frames.update(
        e,
        SpFrame {
            entries: sp_frame_set(frames[e].entries, name, value),
            enclosing: frames[e].enclosing,
        },
    )
}

/// After a bind, the bound name reads back as the bound value, and every
/// other name reads as before.
pub proof fn lemma_frame_get_set(
    entries: Seq<(Seq<char>, SpValue)>,
    name: Seq<char>,
    value: SpValue,
    other: Seq<char>,
)
    ensures
        sp_frame_get(sp_frame_set(entries, name, value), name) == Some(value),
        other != name ==> sp_frame_get(sp_frame_set(entries, name, value), other) == sp_frame_get(
            entries,
            other,
        ),
{
    lemma_find_set(entries, name, value, other, 0);
}

proof fn lemma_find_set(
    entries: Seq<(Seq<char>, SpValue)>,
    name: Seq<char>,
    value: SpValue,
    other: Seq<char>,
    i: int,
)
    requires
        0 <= i <= entries.len(),
    ensures
        ({
            let after = sp_frame_set(entries, name, value);
            &&& sp_find_from(after, name, 0) is Some
            &&& after[sp_find_from(after, name, 0)->0].1 == value
            &&& (other != name ==> sp_find_from(after, other, i) == sp_find_from(
                entries,
                other,
                i,
            ) && (sp_find_from(entries, other, i) is Some
                ==> after[sp_find_from(entries, other, i)->0].1 == entries[sp_find_from(
                entries,
                other,
                i,
            )->0].1))
        }),
    decreases entries.len() - i,
{
    let after = sp_frame_set(entries, name, value);
    match sp_find_from(entries, name, 0) {
        Some(j) => {
            lemma_find_prefix_miss(entries, name, 0, j);
            assert(after == entries.update(j, (name, value)));
            lemma_find_update(entries, name, value, j);
        },
        None => {
            lemma_find_push(entries, name, value);
        },
    }
    if i < entries.len() {
        lemma_find_set(entries, name, value, other, i + 1);
    }
}

/// Below the first hit, every earlier position misses.
proof fn lemma_find_prefix_miss(
    entries: Seq<(Seq<char>, SpValue)>,
    name: Seq<char>,
    i: int,
    j: int,
)
    requires
        0 <= i <= entries.len(),
        sp_find_from(entries, name, i) == Some(j),
    ensures
        i <= j < entries.len(),
        entries[j].0 == name,
        forall|k: int| i <= k < j ==> (#[trigger] entries[k]).0 != name,
    decreases entries.len() - i,
{
    if i < entries.len() && entries[i].0 != name {
        lemma_find_prefix_miss(entries, name, i + 1, j);
    }
}

proof fn lemma_find_update(entries: Seq<(Seq<char>, SpValue)>, name: Seq<char>, value: SpValue, j: int)
    requires
        0 <= j < entries.len(),
        entries[j].0 == name,
        forall|k: int| 0 <= k < j ==> (#[trigger] entries[k]).0 != name,
    ensures
        sp_find_from(entries.update(j, (name, value)), name, 0) == Some(j),
{
    lemma_find_update_from(entries, name, value, j, 0);
}

proof fn lemma_find_update_from(
    entries: Seq<(Seq<char>, SpValue)>,
    name: Seq<char>,
    value: SpValue,
    j: int,
    i: int,
)
    requires
        0 <= i <= j < entries.len(),
        entries[j].0 == name,
        forall|k: int| 0 <= k < j ==> (#[trigger] entries[k]).0 != name,
    ensures
        sp_find_from(entries.update(j, (name, value)), name, i) == Some(j),
    decreases j - i,
{
    if i < j {
        lemma_find_update_from(entries, name, value, j, i + 1);
    }
}

proof fn lemma_find_push(entries: Seq<(Seq<char>, SpValue)>, name: Seq<char>, value: SpValue)
    requires
        sp_find_from(entries, name, 0) is None,
    ensures
        sp_find_from(entries.push((name, value)), name, 0) == Some(entries.len() as int),
{
    lemma_find_push_from(entries, name, value, 0);
}

proof fn lemma_find_push_from(
    entries: Seq<(Seq<char>, SpValue)>,
    name: Seq<char>,
    value: SpValue,
    i: int,
)
    requires
        0 <= i <= entries.len(),
        sp_find_from(entries, name, i) is None,
    ensures
        sp_find_from(entries.push((name, value)), name, i) == Some(entries.len() as int),
    decreases entries.len() - i,
{
    if i < entries.len() {
        lemma_find_push_from(entries, name, value, i + 1);
    }
}

impl Frame {
    fn find(&self, name: &String) -> (r: Option<usize>)
        ensures
            r is Some ==> sp_find_from(self@.entries, name@, 0) == Some(r->0 as int) && (r->0 as int)
                < self.entries@.len(),
            r is None ==> sp_find_from(self@.entries, name@, 0) is None,
    {
        self.find_from(name, 0)
    }

    fn find_from(&self, name: &String, i: usize) -> (r: Option<usize>)
        requires
            i <= self.entries@.len(),
        ensures
            r is Some ==> sp_find_from(self@.entries, name@, i as int) == Some(r->0 as int) && (
            r->0 as int) < self.entries@.len(),
            r is None ==> sp_find_from(self@.entries, name@, i as int) is None,
        decreases self.entries@.len() - i,
    {
        if i >= self.entries.len() {
            None
        } else if self.entries[i].0 == *name {
            Some(i)
        } else {
            self.find_from(name, i + 1)
        }
    }

    /// Bind `name` to `value` in this frame, shadowing any earlier binding.
    pub fn define(&mut self, name: &String, value: Value)
        ensures
            final(self)@.entries == sp_frame_set(old(self)@.entries, name@, value@),
            final(self)@.enclosing == old(self)@.enclosing,
    {
        match self.find(name) {
            Some(j) => {
                proof {
                    lemma_find_prefix_miss(self@.entries, name@, 0, j as int);
                }
                let slot: &mut (String, Value) = &mut self.entries[j];
                slot.1 = value;
                assert(self@.entries =~~= sp_frame_set(old(self)@.entries, name@, value@));
            },
            None => {
                self.entries.push((name.clone(), value));
                assert(self@.entries =~~= sp_frame_set(old(self)@.entries, name@, value@));
            },
        }
    }

    /// The value bound to `name` in this frame, if any.
    pub fn get(&self, name: &String) -> (r: Option<Value>)
        ensures
            match sp_frame_get(self@.entries, name@) {
                Some(v) => r is Some && r->0@ == v,
                None => r is None,
            },
            forall|n: int|
                #[trigger] sp_entries_ok(self@.entries, n) ==> (r is Some ==> crate::value::sp_value_ok(
                    r->0@,
                    n,
                )),
    {
        match self.find(name) {
            Some(j) => Some(self.entries[j].1.duplicate()),
            None => None,
        }
    }
}

impl Env {
    pub fn new() -> (r: Env)
        ensures
            r@ == Seq::<SpFrame>::empty().push(
                SpFrame { entries: Seq::empty(), enclosing: None },
            ),
    {
        let mut frames: Vec<Frame> = Vec::new();
        frames.push(Frame { entries: Vec::new(), enclosing: None });
        let r = Env { frames };
        assert(r@ =~~= Seq::<SpFrame>::empty().push(
            SpFrame { entries: Seq::empty(), enclosing: None },
        ));
        r
    }

    pub open spec fn wf(&self) -> bool {
        sp_env_wf(self@) && self@.len() >= 1
    }

    /// Add a fresh, empty frame whose enclosing frame is `enclosing`, and
    /// return its index.
    pub fn with_environment(&mut self, enclosing: usize) -> (r: usize)
        requires
            enclosing < old(self)@.len(),
        ensures
            final(self)@ == old(self)@.push(
                SpFrame { entries: Seq::empty(), enclosing: Some(enclosing as int) },
            ),
            r as int == old(self)@.len(),
            old(self).wf() ==> final(self).wf(),
            sp_frames_ok(old(self)@) ==> sp_frames_ok(final(self)@),
    {
        proof {
            if sp_frames_ok(self@) {
                lemma_frames_ok_push_empty(self@, enclosing as int);
            }
        }
        let r = self.frames.len();
        self.frames.push(Frame { entries: Vec::new(), enclosing: Some(enclosing) });
        assert(self@ =~~= old(self)@.push(
            SpFrame { entries: Seq::empty(), enclosing: Some(enclosing as int) },
        ));
        r
    }

    /// Bind `name` to `value` in frame `e`.
    pub fn define(&mut self, e: usize, name: &String, value: Value)
        requires
            e < old(self)@.len(),
        ensures
            final(self)@ == sp_define(old(self)@, e as int, name@, value@),
            final(self)@.len() == old(self)@.len(),
            old(self).wf() ==> final(self).wf(),
            sp_frames_ok(old(self)@) && crate::value::sp_value_ok(value@, old(self)@.len() as int)
                ==> sp_frames_ok(final(self)@),
    {
        proof {
            lemma_wf_same_links(old(self)@, sp_define(old(self)@, e as int, name@, value@));
            if sp_frames_ok(self@) && crate::value::sp_value_ok(value@, self@.len() as int) {
                lemma_frames_ok_define(self@, e as int, name@, value@);
            }
        }
        let fr: &mut Frame = &mut self.frames[e];
        fr.define(name, value);
        assert(self@ =~~= sp_define(old(self)@, e as int, name@, value@));
    }

    /// Search the chain from frame `e` outward for `name`.
    pub fn get(&self, e: usize, name: &String) -> (r: Option<Value>)
        requires
            self.wf(),
            e < self@.len(),
        ensures
            match sp_get(self@, e as int, name@) {
                Some(v) => r is Some && r->0@ == v,
                None => r is None,
            },
            sp_frames_ok(self@) ==> (r is Some ==> crate::value::sp_value_ok(
                r->0@,
                self@.len() as int,
            )),
        decreases e,
    {
        match self.frames[e].get(name) {
            Some(v) => Some(v),
            None => match self.frames[e].enclosing {
                Some(p) => self.get(p, name),
                None => None,
            },
        }
    }

    /// Search the chain from frame `e` outward and overwrite the binding
    /// of `name` where found; report whether it was found.
    pub fn assign(&mut self, e: usize, name: &String, value: Value) -> (r: bool)
        requires
            old(self).wf(),
            e < old(self)@.len(),
        ensures
            match sp_assign(old(self)@, e as int, name@, value@) {
                Some(frames) => r && final(self)@ == frames,
                None => !r && final(self)@ == old(self)@,
            },
            final(self)@.len() == old(self)@.len(),
            old(self).wf() ==> final(self).wf(),
            sp_frames_ok(old(self)@) && crate::value::sp_value_ok(value@, old(self)@.len() as int)
                ==> sp_frames_ok(final(self)@),
        decreases e,
    {
        proof {
            if old(self).wf() && sp_frames_ok(self@) && crate::value::sp_value_ok(
                value@,
                self@.len() as int,
            ) {
                lemma_frames_ok_assign(self@, e as int, name@, value@);
            }
            if old(self).wf() && sp_assign(old(self)@, e as int, name@, value@) is Some {
                lemma_assign_links(old(self)@, e as int, name@, value@);
                lemma_wf_same_links(old(self)@, sp_assign(old(self)@, e as int, name@, value@)->0);
            }
        }
        let found = self.frames[e].find(name);
        match found {
            Some(_) => {
                let fr: &mut Frame = &mut self.frames[e];
                fr.define(name, value);
                assert(self@ =~~= sp_assign(old(self)@, e as int, name@, value@)->0);
                true
            },
            None => {
                let enc = self.frames[e].enclosing;
                match enc {
                    Some(p) => self.assign(p, name, value),
                    None => false,
                }
            },
        }
    }

    /// The frame exactly `depth` links out from `e`, if the chain is that
    /// long.
    pub fn ancestor(&self, e: usize, depth: u32) -> (r: Option<usize>)
        requires
            self.wf(),
        ensures
            match sp_ancestor(self@, e as int, depth as nat) {
                Some(t) => r is Some && r->0 as int == t && t < self@.len(),
                None => r is None,
            },
        decreases depth,
    {
        if e >= self.frames.len() {
            None
        } else if depth == 0 {
            Some(e)
        } else {
            match self.frames[e].enclosing {
                Some(p) => self.ancestor(p, depth - 1),
                None => None,
            }
        }
    }

    /// Read `name` in the frame exactly `depth` links out from `e`.
    pub fn get_at(&self, e: usize, depth: u32, name: &String) -> (r: Option<Value>)
        requires
            self.wf(),
        ensures
            match sp_get_at(self@, e as int, depth as nat, name@) {
                Some(v) => r is Some && r->0@ == v,
                None => r is None,
            },
            sp_frames_ok(self@) ==> (r is Some ==> crate::value::sp_value_ok(
                r->0@,
                self@.len() as int,
            )),
    {
        match self.ancestor(e, depth) {
            Some(t) => self.frames[t].get(name),
            None => None,
        }
    }

    /// Bind `name` in the frame exactly `depth` links out from `e`;
    /// report whether the chain was that long.
    pub fn assign_at(&mut self, e: usize, depth: u32, name: &String, value: Value) -> (r: bool)
        requires
            old(self).wf(),
        ensures
            match sp_assign_at(old(self)@, e as int, depth as nat, name@, value@) {
                Some(frames) => r && final(self)@ == frames,
                None => !r && final(self)@ == old(self)@,
            },
            final(self)@.len() == old(self)@.len(),
            old(self).wf() ==> final(self).wf(),
            sp_frames_ok(old(self)@) && crate::value::sp_value_ok(value@, old(self)@.len() as int)
                ==> sp_frames_ok(final(self)@),
    {
        proof {
            if sp_assign_at(old(self)@, e as int, depth as nat, name@, value@) is Some {
                lemma_ancestor_range(old(self)@, e as int, depth as nat);
                if sp_frames_ok(self@) && crate::value::sp_value_ok(value@, self@.len() as int) {
                    let t = sp_ancestor(self@, e as int, depth as nat)->0;
                    lemma_frames_ok_define(self@, t, name@, value@);
                    assert(sp_assign_at(self@, e as int, depth as nat, name@, value@)->0
                        == sp_define(self@, t, name@, value@));
                }
                lemma_wf_same_links(
                    old(self)@,
                    sp_assign_at(old(self)@, e as int, depth as nat, name@, value@)->0,
                );
            }
        }
        match self.ancestor(e, depth) {
            Some(t) => {
                let fr: &mut Frame = &mut self.frames[t];
                fr.define(name, value);
                assert(self@ =~~= sp_assign_at(old(self)@, e as int, depth as nat, name@, value@)->0);
                true
            },
            None => false,
        }
    }
}

/// Binding a valid value keeps every entry of the table valid.
pub proof fn lemma_entries_ok_set(
    entries: Seq<(Seq<char>, SpValue)>,
    name: Seq<char>,
    value: SpValue,
    n: int,
)
    requires
        sp_entries_ok(entries, n),
        crate::value::sp_value_ok(value, n),
    ensures
        sp_entries_ok(sp_frame_set(entries, name, value), n),
{
    let after = sp_frame_set(entries, name, value);
    assert forall|i: int| 0 <= i < after.len() implies crate::value::sp_value_ok(
        (#[trigger] after[i]).1,
        n,
    ) by {
        match sp_find_from(entries, name, 0) {
            Some(j) => {
                lemma_find_prefix_miss(entries, name, 0, j);
                if i != j {
                    assert(after[i] == entries[i]);
                }
            },
            None => {
                if i < entries.len() {
                    assert(after[i] == entries[i]);
                }
            },
        }
    }
}

/// Binding a valid value in one frame keeps the whole store valid.
pub proof fn lemma_frames_ok_define(frames: Seq<SpFrame>, e: int, name: Seq<char>, value: SpValue)
    requires
        sp_frames_ok(frames),
        crate::value::sp_value_ok(value, frames.len() as int),
        0 <= e < frames.len(),
    ensures
        sp_frames_ok(sp_define(frames, e, name, value)),
{
    let after = sp_define(frames, e, name, value);
    assert forall|i: int| 0 <= i < after.len() implies sp_entries_ok(
        (#[trigger] after[i]).entries,
        after.len() as int,
    ) by {
        if i == e {
            lemma_entries_ok_set(frames[e].entries, name, value, frames.len() as int);
        } else {
            assert(after[i] == frames[i]);
        }
    }
}

/// An assignment of a valid value keeps the whole store valid.
pub proof fn lemma_frames_ok_assign(frames: Seq<SpFrame>, e: int, name: Seq<char>, value: SpValue)
    requires
        sp_frames_ok(frames),
        crate::value::sp_value_ok(value, frames.len() as int),
        0 <= e < frames.len(),
        sp_env_wf(frames),
    ensures
        sp_assign(frames, e, name, value) is Some ==> sp_frames_ok(
            sp_assign(frames, e, name, value)->0,
        ),
    decreases e,
{
    {
        if sp_frame_get(frames[e].entries, name) is Some {
            lemma_frames_ok_define(frames, e, name, value);
            assert(sp_assign(frames, e, name, value)->0 == sp_define(frames, e, name, value));
        } else {
            match frames[e].enclosing {
                Some(p) => lemma_frames_ok_assign(frames, p, name, value),
                None => {},
            }
        }
    }
}

/// Adding an empty frame keeps the store valid.
pub proof fn lemma_frames_ok_push_empty(frames: Seq<SpFrame>, enclosing: int)
    requires
        sp_frames_ok(frames),
    ensures
        sp_frames_ok(frames.push(SpFrame { entries: Seq::empty(), enclosing: Some(enclosing) })),
{
    let after = frames.push(SpFrame { entries: Seq::empty(), enclosing: Some(enclosing) });
    assert forall|i: int| 0 <= i < after.len() implies sp_entries_ok(
        (#[trigger] after[i]).entries,
        after.len() as int,
    ) by {
        if i < frames.len() {
            assert(after[i] == frames[i]);
            assert(sp_entries_ok(frames[i].entries, frames.len() as int));
            assert forall|k: int| 0 <= k < frames[i].entries.len() implies crate::value::sp_value_ok(
                (#[trigger] frames[i].entries[k]).1,
                after.len() as int,
            ) by {
                assert(crate::value::sp_value_ok(frames[i].entries[k].1, frames.len() as int));
            }
        }
    }
}

/// A reachable ancestor index is in range.
pub proof fn lemma_ancestor_range(frames: Seq<SpFrame>, e: int, depth: nat)
    requires
        sp_ancestor(frames, e, depth) is Some,
    ensures
        0 <= sp_ancestor(frames, e, depth)->0 < frames.len(),
    decreases depth,
{
    if 0 <= e < frames.len() && depth > 0 {
        match frames[e].enclosing {
            Some(p) => lemma_ancestor_range(frames, p, (depth - 1) as nat),
            None => {},
        }
    }
}

/// Two frame stores of the same length with the same enclosing links are
/// both well formed or both not.
pub proof fn lemma_wf_same_links(a: Seq<SpFrame>, b: Seq<SpFrame>)
    requires
        a.len() == b.len(),
        forall|i: int| 0 <= i < a.len() ==> (#[trigger] b[i]).enclosing == a[i].enclosing,
    ensures
        sp_env_wf(a) ==> sp_env_wf(b),
{
}

/// `sp_assign` and `sp_define` change entries only, never a link, and
/// `sp_assign` keeps the length.
pub proof fn lemma_assign_links(frames: Seq<SpFrame>, e: int, name: Seq<char>, value: SpValue)
    requires
        0 <= e < frames.len(),
        sp_env_wf(frames),
    ensures
        sp_assign(frames, e, name, value) is Some ==> {
            let after = sp_assign(frames, e, name, value)->0;
            &&& after.len() == frames.len()
            &&& forall|i: int|
                0 <= i < after.len() ==> (#[trigger] after[i]).enclosing == frames[i].enclosing
        },
    decreases e,
{
    if sp_frame_get(frames[e].entries, name) is Some {
    } else {
        match frames[e].enclosing {
            Some(p) => lemma_assign_links(frames, p, name, value),
            None => {},
        }
    }
}

} // verus!
