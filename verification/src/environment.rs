//! The lexical environment: a tree of scope frames held in one arena and
//! addressed by integer handles, so that every holder of a handle observes
//! every later mutation of the frame (a top-level definition made while
//! compiling one expression must be visible to references resolved while
//! compiling a sibling). Frame 0 is the unique global frame; every other
//! frame's altitude is one more than its parent's.

use vstd::prelude::*;

verus! {

/// A resolved binding: its absolute distance from the global frame
/// (`altitude`, 0 for a global), its slot within that frame, and whether the
/// slot is guaranteed populated wherever it can be read.
#[derive(Clone, Copy, Debug, PartialEq, Eq, Structural)]
pub struct Variable {
    pub altitude: usize,
    pub index: usize,
    pub initialized: bool,
}

/// The mathematical model of one binding.
pub ghost struct BindingModel {
    pub name: Seq<char>,
    pub initialized: bool,
}

/// The mathematical model of one scope frame: its parent's handle, its
/// altitude, and its bindings in slot order.
pub ghost struct FrameModel {
    pub parent: int,
    pub altitude: int,
    pub bindings: Seq<BindingModel>,
}

struct Binding {
    name: String,
    initialized: bool,
}

struct Frame {
    parent: usize,
    altitude: usize,
    bindings: Vec<Binding>,
}

/// The frame arena. Its view is the sequence of frame models, indexed by
/// frame handle.
pub struct Environment {
    frames: Vec<Frame>,
}

impl View for Binding {
    type V = BindingModel;

    closed spec fn view(&self) -> BindingModel {
        BindingModel { name: self.name@, initialized: self.initialized }
    }
}

impl View for Frame {
    type V = FrameModel;

    closed spec fn view(&self) -> FrameModel {
        FrameModel {
            parent: self.parent as int,
            altitude: self.altitude as int,
            bindings: self.bindings@.map_values(|b: Binding| b@),
        }
    }
}

impl View for Environment {
    type V = Seq<FrameModel>;

    closed spec fn view(&self) -> Seq<FrameModel> {
        self.frames@.map_values(|f: Frame| f@)
    }
}

/// Well-formedness of a frame arena: the global frame sits at handle 0 with
/// altitude 0, and every other frame points to an earlier parent and sits one
/// altitude below it.
pub open spec fn env_wf(env: Seq<FrameModel>) -> bool {
    &&& env.len() >= 1
    &&& env[0].altitude == 0
    &&& env[0].parent == 0
    &&& forall|i: int| #![trigger env[i]]
        1 <= i < env.len() ==> {
            &&& 0 <= env[i].parent < i
            &&& env[i].altitude == env[env[i].parent].altitude + 1
            &&& env[i].altitude <= i
        }
}

/// The slot of the first binding named `name` in a frame's slot list, if any.
pub open spec fn lookup_in_frame(bs: Seq<BindingModel>, name: Seq<char>) -> Option<int>
    decreases bs.len(),
{
    if bs.len() == 0 {
        None
    } else if bs[0].name == name {
        Some(0)
    } else {
        match lookup_in_frame(bs.drop_first(), name) {
            Some(i) => Some(i + 1),
            None => None,
        }
    }
}

/// Name resolution: walks from `frame` outward along the parent chain; the
/// first frame that binds `name` wins.
pub open spec fn resolve_in(env: Seq<FrameModel>, frame: int, name: Seq<char>) -> Option<Variable>
    decreases frame,
    when 0 <= frame < env.len()
{
    match lookup_in_frame(env[frame].bindings, name) {
        Some(i) => Some(
            Variable {
                altitude: env[frame].altitude as usize,
                index: i as usize,
                initialized: env[frame].bindings[i].initialized,
            },
        ),
        None => if frame > 0 && 0 <= env[frame].parent < frame {
            resolve_in(env, env[frame].parent, name)
        } else {
            None
        },
    }
}

/// What `define` does to the arena: rebinding a name reuses its slot (and
/// refreshes its initialized flag); a new name takes a fresh slot at the end
/// of the frame. Returns the new arena and the slot used.
pub open spec fn env_define(
    env: Seq<FrameModel>,
    frame: int,
    name: Seq<char>,
    initialized: bool,
) -> (Seq<FrameModel>, int) {
    let fr = env[frame];
    match lookup_in_frame(fr.bindings, name) {
        Some(i) => (
            env.update(
                frame,
                FrameModel {
                    parent: fr.parent,
                    altitude: fr.altitude,
                    bindings: fr.bindings.update(i, BindingModel { name, initialized }),
                },
            ),
            i,
        ),
        None => (
            env.update(
                frame,
                FrameModel {
                    parent: fr.parent,
                    altitude: fr.altitude,
                    bindings: fr.bindings.push(BindingModel { name, initialized }),
                },
            ),
            fr.bindings.len() as int,
        ),
    }
}

/// The bindings of a fresh frame: the given names in order, all initialized.
pub open spec fn names_model(ns: Seq<String>) -> Seq<BindingModel> {
    ns.map_values(|n: String| BindingModel { name: n@, initialized: true })
}

/// A binding found by `lookup_in_frame` is in range, carries the looked-up
/// name, and is the earliest such binding.
pub proof fn lemma_lookup_props(bs: Seq<BindingModel>, name: Seq<char>)
    ensures
        match lookup_in_frame(bs, name) {
            Some(i) => 0 <= i < bs.len() && bs[i].name == name && forall|j: int|
                0 <= j < i ==> bs[j].name != name,
            None => forall|j: int| 0 <= j < bs.len() ==> bs[j].name != name,
        },
    decreases bs.len(),
{
    if bs.len() > 0 && bs[0].name != name {
        let t = bs.drop_first();
        lemma_lookup_props(t, name);
        match lookup_in_frame(t, name) {
            Some(i) => {
                assert(bs[i + 1] == t[i]);
                assert forall|j: int| 0 <= j < i + 1 implies bs[j].name != name by {
                    if j > 0 {
                        assert(bs[j] == t[j - 1]);
                    }
                }
            }
            None => {
                assert forall|j: int| 0 <= j < bs.len() implies bs[j].name != name by {
                    if j > 0 {
                        assert(bs[j] == t[j - 1]);
                    }
                }
            }
        }
    }
}

/// When everything before `i` misses and slot `i` matches, lookup returns `i`.
proof fn lemma_lookup_at(bs: Seq<BindingModel>, name: Seq<char>, i: int)
    requires
        0 <= i < bs.len(),
        bs[i].name == name,
        forall|j: int| 0 <= j < i ==> bs[j].name != name,
    ensures
        lookup_in_frame(bs, name) == Some(i),
    decreases i,
{
    if i > 0 {
        lemma_lookup_at(bs.drop_first(), name, i - 1);
    }
}

/// Appending a binding for a name no slot holds makes lookup find it in the
/// appended slot.
pub proof fn lemma_lookup_push_fresh(bs: Seq<BindingModel>, name: Seq<char>, init: bool)
    requires
        lookup_in_frame(bs, name) is None,
    ensures
        lookup_in_frame(bs.push(BindingModel { name, initialized: init }), name) == Some(
            bs.len() as int,
        ),
{
    lemma_lookup_props(bs, name);
    lemma_lookup_at(bs.push(BindingModel { name, initialized: init }), name, bs.len() as int);
}

/// When no slot matches, lookup misses.
proof fn lemma_lookup_none(bs: Seq<BindingModel>, name: Seq<char>)
    requires
        forall|j: int| 0 <= j < bs.len() ==> bs[j].name != name,
    ensures
        lookup_in_frame(bs, name) == None::<int>,
    decreases bs.len(),
{
    if bs.len() > 0 {
        lemma_lookup_none(bs.drop_first(), name);
    }
}

impl Environment {
    /// A fresh environment holding only the empty global frame.
    pub fn new() -> (e: Environment)
        ensures
            e@.len() == 1,
            e@[0].parent == 0,
            e@[0].altitude == 0,
            e@[0].bindings == Seq::<BindingModel>::empty(),
            env_wf(e@),
    {
        let e = Environment {
            frames: vec![Frame { parent: 0, altitude: 0, bindings: Vec::new() }],
        };
        proof {
            assert(e@[0].bindings =~= Seq::<BindingModel>::empty());
        }
        e
    }

    /// The slot and flag of the first binding named `name` in one frame.
    fn lookup_frame(&self, frame: usize, name: &String) -> (r: Option<(usize, bool)>)
        requires
            frame < self@.len(),
        ensures
            match r {
                Some((i, init)) => {
                    &&& lookup_in_frame(self@[frame as int].bindings, name@) == Some(i as int)
                    &&& i < self@[frame as int].bindings.len()
                    &&& self@[frame as int].bindings[i as int] == (BindingModel {
                        name: name@,
                        initialized: init,
                    })
                },
                None => lookup_in_frame(self@[frame as int].bindings, name@) == None::<int>,
            },
    {
        let ghost bs = self@[frame as int].bindings;
        let mut j: usize = 0;
        while j < self.frames[frame].bindings.len()
            invariant
                frame < self@.len(),
                bs == self@[frame as int].bindings,
                j <= bs.len(),
                forall|k: int| 0 <= k < j ==> #[trigger] bs[k].name != name@,
            decreases bs.len() - j,
        {
            if self.frames[frame].bindings[j].name == *name {
                proof {
                    lemma_lookup_at(bs, name@, j as int);
                }
                return Some((j, self.frames[frame].bindings[j].initialized));
            }
            j = j + 1;
        }
        proof {
            lemma_lookup_none(bs, name@);
        }
        None
    }

    /// Resolves `name` from `frame` outward; the innermost binding wins.
    pub fn resolve(&self, frame: usize, name: &String) -> (r: Option<Variable>)
        requires
            env_wf(self@),
            frame < self@.len(),
        ensures
            r == resolve_in(self@, frame as int, name@),
            r matches Some(v) ==> v.altitude <= self@[frame as int].altitude,
    {
        let mut cur = frame;
        loop
            invariant
                env_wf(self@),
                cur < self@.len(),
                self@[cur as int].altitude <= self@[frame as int].altitude,
                resolve_in(self@, frame as int, name@) == resolve_in(self@, cur as int, name@),
            decreases cur,
        {
            match self.lookup_frame(cur, name) {
                Some((index, initialized)) => {
                    let altitude = self.frames[cur].altitude;
                    return Some(Variable { altitude, index, initialized });
                }
                None => {
                    if cur == 0 {
                        return None;
                    }
                    cur = self.frames[cur].parent;
                }
            }
        }
    }

    /// Binds `name` in `frame`: reuses the slot of an existing binding of the
    /// same name (refreshing its initialized flag), else appends a new slot.
    /// Returns the slot used. Every holder of the frame's handle observes the
    /// change.
    pub fn define(&mut self, frame: usize, name: &String, initialized: bool) -> (idx: usize)
        requires
            env_wf(old(self)@),
            frame < old(self)@.len(),
        ensures
            final(self)@ == env_define(old(self)@, frame as int, name@, initialized).0,
            idx == env_define(old(self)@, frame as int, name@, initialized).1,
            env_wf(final(self)@),
            final(self)@.len() == old(self)@.len(),
    {
        let r = self.lookup_frame(frame, name);
        match r {
            Some((i, _)) => {
                self.frames[frame].bindings[i] = Binding { name: name.clone(), initialized };
                proof {
                    assert(self@[frame as int].bindings =~= env_define(
                        old(self)@,
                        frame as int,
                        name@,
                        initialized,
                    ).0[frame as int].bindings);
                    assert(self@ =~= env_define(old(self)@, frame as int, name@, initialized).0);
                }
                i
            }
            None => {
                let idx = self.frames[frame].bindings.len();
                self.frames[frame].bindings.push(Binding { name: name.clone(), initialized });
                proof {
                    assert(self@[frame as int].bindings =~= env_define(
                        old(self)@,
                        frame as int,
                        name@,
                        initialized,
                    ).0[frame as int].bindings);
                    assert(self@ =~= env_define(old(self)@, frame as int, name@, initialized).0);
                }
                idx
            }
        }
    }

    /// Allocates a fresh frame under `parent` whose slots are `names` in
    /// order (a variadic lambda passes its rest name as the last entry), all
    /// initialized. Returns the new frame's handle.
    pub fn new_child(&mut self, parent: usize, names: &Vec<String>) -> (f: usize)
        requires
            env_wf(old(self)@),
            parent < old(self)@.len(),
        ensures
            f == old(self)@.len(),
            final(self)@ == old(self)@.push(
                FrameModel {
                    parent: parent as int,
                    altitude: old(self)@[parent as int].altitude + 1,
                    bindings: names_model(names@),
                },
            ),
            env_wf(final(self)@),
    {
        proof {
            assert(self@.len() == self.frames.len());
            assert(self@[parent as int].altitude <= parent as int);
        }
        let altitude = self.frames[parent].altitude + 1;
        let mut bindings: Vec<Binding> = Vec::new();
        let mut j: usize = 0;
        while j < names.len()
            invariant
                j <= names@.len(),
                bindings@.len() == j,
                forall|k: int| 0 <= k < j ==> #[trigger] bindings@[k]@ == (BindingModel {
                    name: names@[k]@,
                    initialized: true,
                }),
            decreases names@.len() - j,
        {
            bindings.push(Binding { name: names[j].clone(), initialized: true });
            j = j + 1;
        }
        let f = self.frames.len();
        self.frames.push(Frame { parent, altitude, bindings });
        proof {
            assert(self@[f as int].bindings =~= names_model(names@));
            assert(self@ =~= old(self)@.push(
                FrameModel {
                    parent: parent as int,
                    altitude: old(self)@[parent as int].altitude + 1,
                    bindings: names_model(names@),
                },
            ));
            assert forall|i: int| 1 <= i < self@.len() implies {
                &&& 0 <= #[trigger] self@[i].parent < i
                &&& self@[i].altitude == self@[self@[i].parent].altitude + 1
                &&& self@[i].altitude <= i
            } by {
                if i < old(self)@.len() {
                    assert(old(self)@[i] == self@[i]);
                }
            }
        }
        f
    }

    /// Converts a binding's absolute altitude into the number of frame hops
    /// from `frame`, which must enclose the binding's frame.
    pub fn depth(&self, frame: usize, altitude: usize) -> (d: usize)
        requires
            env_wf(self@),
            frame < self@.len(),
            altitude <= self@[frame as int].altitude,
        ensures
            d == self@[frame as int].altitude - altitude,
    {
        self.frames[frame].altitude - altitude
    }
}

} // verus!
