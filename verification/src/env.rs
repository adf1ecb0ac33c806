use crate::outcome::BindingError;
use crate::value::{value_wf, Value, ValueV};
use vstd::prelude::*;

verus! {

/// One name-to-value binding, with its mutability tag.
#[derive(Debug)]
pub struct Binding {
    pub name: String,
    pub value: Value,
    pub is_const: bool,
}

/// One lexical scope: its bindings and the index of the enclosing scope.
#[derive(Debug)]
pub struct Frame {
    pub bindings: Vec<Binding>,
    pub parent: Option<usize>,
}

/// The environment: an arena of frames forming parent-linked chains from
/// inner scopes out to the global scope, and the index of the frame that is
/// current.  Frames are kept in the arena for as long as the interpreter
/// lives, so a closure's captured frame index stays valid after the
/// defining block exits.
#[derive(Debug)]
pub struct Environment {
    pub frames: Vec<Frame>,
    pub cur: usize,
}

/// Mathematical model of a binding: its value and mutability.
pub struct BindingV {
    pub value: ValueV,
    pub is_const: bool,
}

/// Mathematical model of a frame: an order-irrelevant map from names to
/// bindings, and the enclosing frame's index.
pub struct FrameV {
    pub bindings: Map<Seq<char>, BindingV>,
    pub parent: Option<int>,
}

/// Mathematical model of the environment.
pub struct EnvV {
    pub frames: Seq<FrameV>,
    pub cur: int,
}

pub open spec fn binding_v(b: Binding) -> BindingV {
    BindingV { value: b.value@, is_const: b.is_const }
}

/// The map a sequence of bindings denotes; a later binding for the same
/// name overrides an earlier one.
pub open spec fn frame_map(bs: Seq<Binding>) -> Map<Seq<char>, BindingV>
    decreases bs.len(),
{
    if bs.len() == 0 {
        Map::empty()
    } else {
        frame_map(bs.drop_last()).insert(bs.last().name@, binding_v(bs.last()))
    }
}

impl View for Frame {
    type V = FrameV;

    open spec fn view(&self) -> FrameV {
        FrameV {
            bindings: frame_map(self.bindings@),
            parent: match self.parent {
                Some(p) => Some(p as int),
                None => None,
            },
        }
    }
}

impl View for Environment {
    type V = EnvV;

    open spec fn view(&self) -> EnvV {
        EnvV { frames: self.frames@.map_values(|f: Frame| f@), cur: self.cur as int }
    }
}

/// No two bindings of one frame carry the same name.
pub open spec fn frame_names_unique(bs: Seq<Binding>) -> bool {
    forall|p: int, q: int| 0 <= p < q < bs.len() ==> bs[p].name@ != bs[q].name@
}

/// A frame is well formed when its parent link points strictly outward
/// (to an earlier frame of the arena) and every value it binds is well
/// formed with respect to the arena's size.
pub open spec fn frame_wf(f: FrameV, idx: int, n: int) -> bool {
    &&& (match f.parent {
        Some(p) => 0 <= p < idx,
        None => true,
    })
    &&& (forall|nm: Seq<char>|
        #[trigger] f.bindings.contains_key(nm) ==> value_wf(f.bindings[nm].value, n))
}

/// The environment invariant: at least the global frame exists, the
/// current frame is in the arena, and every frame is well formed.
pub open spec fn env_wf(e: EnvV) -> bool {
    &&& 0 < e.frames.len()
    &&& 0 <= e.cur < e.frames.len()
    &&& forall|i: int|
        0 <= i < e.frames.len() ==> #[trigger] frame_wf(e.frames[i], i, e.frames.len() as int)
}

/// The index of the nearest frame, from `i` outward, that defines `n`.
pub open spec fn resolve(frames: Seq<FrameV>, i: int, n: Seq<char>) -> Option<int>
    decreases i,
{
    if i < 0 || i >= frames.len() {
        None
    } else if frames[i].bindings.contains_key(n) {
        Some(i)
    } else {
        match frames[i].parent {
            Some(p) => if 0 <= p < i {
                resolve(frames, p, n)
            } else {
                None
            },
            None => None,
        }
    }
}

/// The nearest enclosing binding of `n`, walking the chain from frame `i`
/// out to the global frame.
pub open spec fn lookup(frames: Seq<FrameV>, i: int, n: Seq<char>) -> Option<BindingV> {
    match resolve(frames, i, n) {
        Some(j) => Some(frames[j].bindings[n]),
        None => None,
    }
}

/// Defining `n` in the current frame: an error if the current frame
/// already binds `n` as const, an insert-or-overwrite otherwise.
pub open spec fn env_define(e: EnvV, n: Seq<char>, v: ValueV, is_const: bool) -> (EnvV, Option<
    BindingError,
>) {
    let f = e.frames[e.cur];
    if f.bindings.contains_key(n) && f.bindings[n].is_const {
        (e, Some(BindingError::ConstReassignment))
    } else {
        (
            EnvV {
                frames: e.frames.update(
                    e.cur,
                    FrameV {
                        bindings: f.bindings.insert(n, BindingV { value: v, is_const }),
                        parent: f.parent,
                    },
                ),
                cur: e.cur,
            },
            None,
        )
    }
}

/// Assigning to the nearest enclosing binding of `n`, from frame `i`
/// outward: undefined if no frame binds it, a const-reassignment error if
/// the binding found is const.
pub open spec fn assign_frames(frames: Seq<FrameV>, i: int, n: Seq<char>, v: ValueV) -> (Seq<
    FrameV,
>, Option<BindingError>)
    decreases i,
{
    if i < 0 || i >= frames.len() {
        (frames, Some(BindingError::Undefined))
    } else if frames[i].bindings.contains_key(n) {
        if frames[i].bindings[n].is_const {
            (frames, Some(BindingError::ConstReassignment))
        } else {
            (
                frames.update(
                    i,
                    FrameV {
                        bindings: frames[i].bindings.insert(
                            n,
                            BindingV { value: v, is_const: false },
                        ),
                        parent: frames[i].parent,
                    },
                ),
                None,
            )
        }
    } else {
        match frames[i].parent {
            Some(p) => if 0 <= p < i {
                assign_frames(frames, p, n, v)
            } else {
                (frames, Some(BindingError::Undefined))
            },
            None => (frames, Some(BindingError::Undefined)),
        }
    }
}

/// Assignment, starting from the current frame.
pub open spec fn env_assign(e: EnvV, n: Seq<char>, v: ValueV) -> (EnvV, Option<BindingError>) {
    let (fs, err) = assign_frames(e.frames, e.cur, n, v);
    (EnvV { frames: fs, cur: e.cur }, err)
}

/// A new empty frame chained to `parent`, which becomes current.
pub open spec fn push_frame(e: EnvV, parent: int) -> EnvV {
    EnvV {
        frames: e.frames.push(FrameV { bindings: Map::empty(), parent: Some(parent) }),
        cur: e.frames.len() as int,
    }
}

/// The environment the interpreter starts with: one global frame.
pub open spec fn init_env() -> EnvV {
    EnvV { frames: seq![FrameV { bindings: Map::empty(), parent: None }], cur: 0 }
}

/// `frame_map` binds `n` exactly when some binding of the sequence is
/// named `n`.
proof fn lemma_frame_map_contains(bs: Seq<Binding>, n: Seq<char>)
    ensures
        frame_map(bs).contains_key(n) <==> exists|i: int| 0 <= i < bs.len() && bs[i].name@ == n,
    decreases bs.len(),
{
    if bs.len() == 0 {
    } else {
        lemma_frame_map_contains(bs.drop_last(), n);
        if bs.last().name@ == n {
            assert(bs[bs.len() - 1].name@ == n);
        } else {
            if exists|i: int| 0 <= i < bs.len() && bs[i].name@ == n {
                let i = choose|i: int| 0 <= i < bs.len() && bs[i].name@ == n;
                assert(bs.drop_last()[i].name@ == n);
            }
        }
    }
}

/// With unique names, the map agrees with any binding of the sequence.
proof fn lemma_frame_map_index(bs: Seq<Binding>, j: int, n: Seq<char>)
    requires
        frame_names_unique(bs),
        0 <= j < bs.len(),
        bs[j].name@ == n,
    ensures
        frame_map(bs).contains_key(n),
        frame_map(bs)[n] == binding_v(bs[j]),
    decreases bs.len(),
{
    if j == bs.len() - 1 {
    } else {
        assert(frame_names_unique(bs.drop_last()));
        assert(bs.drop_last()[j] == bs[j]);
        lemma_frame_map_index(bs.drop_last(), j, n);
        assert(bs.last().name@ != n);
    }
}

/// Overwriting the binding named `n` updates the map at `n` alone.
proof fn lemma_frame_map_update(bs: Seq<Binding>, j: int, b2: Binding)
    requires
        frame_names_unique(bs),
        0 <= j < bs.len(),
        bs[j].name@ == b2.name@,
    ensures
        frame_map(bs.update(j, b2)) == frame_map(bs).insert(b2.name@, binding_v(b2)),
    decreases bs.len(),
{
    let bs2 = bs.update(j, b2);
    if j == bs.len() - 1 {
        assert(bs2.drop_last() =~= bs.drop_last());
        assert(bs2.last() == b2);
        assert(frame_map(bs.drop_last()).insert(bs.last().name@, binding_v(bs.last())).insert(
            b2.name@,
            binding_v(b2),
        ) =~= frame_map(bs.drop_last()).insert(b2.name@, binding_v(b2)));
    } else {
        assert(frame_names_unique(bs.drop_last()));
        assert(bs.drop_last()[j] == bs[j]);
        lemma_frame_map_update(bs.drop_last(), j, b2);
        assert(bs2.drop_last() =~= bs.drop_last().update(j, b2));
        assert(bs2.last() == bs.last());
        assert(bs.last().name@ != b2.name@);
        assert(frame_map(bs.drop_last()).insert(b2.name@, binding_v(b2)).insert(
            bs.last().name@,
            binding_v(bs.last()),
        ) =~= frame_map(bs.drop_last()).insert(bs.last().name@, binding_v(bs.last())).insert(
            b2.name@,
            binding_v(b2),
        ));
    }
}

/// Appending a binding for a fresh name inserts it into the map.
proof fn lemma_frame_map_push(bs: Seq<Binding>, b: Binding)
    ensures
        frame_map(bs.push(b)) == frame_map(bs).insert(b.name@, binding_v(b)),
{
    assert(bs.push(b).drop_last() =~= bs);
    assert(bs.push(b).last() == b);
}

/// The view of an arena after replacing one frame.
proof fn lemma_frames_view_update(fs: Seq<Frame>, i: int, f: Frame)
    requires
        0 <= i < fs.len(),
    ensures
        fs.update(i, f).map_values(|x: Frame| x@) =~= fs.map_values(|x: Frame| x@).update(i, f@),
{
}

/// The view of an arena after appending one frame.
proof fn lemma_frames_view_push(fs: Seq<Frame>, f: Frame)
    ensures
        fs.push(f).map_values(|x: Frame| x@) =~= fs.map_values(|x: Frame| x@).push(f@),
{
}

impl Frame {
    /// The position of the binding named `name` in this frame, if any.
    pub fn find(&self, name: &String) -> (r: Option<usize>)
        ensures
            match r {
                Some(j) => {
                    &&& j < self.bindings.len()
                    &&& self.bindings@[j as int].name@ == name@
                    &&& frame_map(self.bindings@).contains_key(name@)
                },
                None => !frame_map(self.bindings@).contains_key(name@),
            },
    {
        let mut k: usize = 0;
        while k < self.bindings.len()
            invariant
                k <= self.bindings.len(),
                forall|m: int| 0 <= m < k ==> self.bindings@[m].name@ != name@,
            decreases self.bindings.len() - k,
        {
            if self.bindings[k].name == *name {
                proof {
                    lemma_frame_map_contains(self.bindings@, name@);
                }
                return Some(k);
            }
            k += 1;
        }
        proof {
            lemma_frame_map_contains(self.bindings@, name@);
        }
        None
    }
}

impl Environment {
    /// The invariant every operation preserves: the model is well formed
    /// and each frame's binding names are unique.
    pub open spec fn inv(self) -> bool {
        &&& env_wf(self@)
        &&& forall|i: int|
            0 <= i < self.frames@.len() ==> frame_names_unique(
                #[trigger] self.frames@[i].bindings@,
            )
    }

    /// A fresh environment: one empty global frame, which is current.
    pub fn new() -> (r: Environment)
        ensures
            r.inv(),
            r@ == init_env(),
    {
        let mut frames: Vec<Frame> = Vec::new();
        frames.push(Frame { bindings: Vec::new(), parent: None });
        let e = Environment { frames, cur: 0 };
        proof {
            assert(e@.frames =~= init_env().frames);
        }
        e
    }

    /// The index of the current frame.
    pub fn cur_index(&self) -> (r: usize)
        ensures
            r as int == self@.cur,
    {
        self.cur
    }

    /// Inserts or overwrites a binding in the current frame only; fails
    /// with `ConstReassignment` if the current frame already binds `name`
    /// as const.
    pub fn define(&mut self, name: &String, value: Value, is_const: bool) -> (r: Result<
        (),
        BindingError,
    >)
        requires
            old(self).inv(),
            value_wf(value@, old(self)@.frames.len() as int),
        ensures
            final(self).inv(),
            ({
                let (e2, err) = env_define(old(self)@, name@, value@, is_const);
                match r {
                    Ok(_) => err is None && final(self)@ == e2,
                    Err(be) => err == Some(be) && final(self)@ == old(self)@,
                }
            }),
    {
        let c = self.cur;
        let found = self.frames[c].find(name);
        match found {
            Some(j) => {
                if self.frames[c].bindings[j].is_const {
                    proof {
                        lemma_frame_map_index(self.frames@[c as int].bindings@, j as int, name@);
                    }
                    Err(BindingError::ConstReassignment)
                } else {
                    proof {
                        lemma_frame_map_index(self.frames@[c as int].bindings@, j as int, name@);
                        lemma_frame_map_update(
                            self.frames@[c as int].bindings@,
                            j as int,
                            Binding { name: *name, value: value, is_const },
                        );
                    }
                    let ghost old_env = self@;
                    let ghost old_frames = self.frames@;
                    let ghost vv = value@;
                    self.frames[c].bindings[j] = Binding { name: name.clone(), value, is_const };
                    proof {
                        lemma_frames_view_update(
                            old_frames,
                            c as int,
                            self.frames@[c as int],
                        );
                        assert(self@.frames =~= env_define(old_env, name@, vv, is_const).0.frames);
                        assert(frame_wf(old_env.frames[c as int], c as int, old_env.frames.len() as int));
                        assert forall|nm: Seq<char>| #[trigger] self@.frames[c as int].bindings.contains_key(
                            nm,
                        ) implies value_wf(
                            self@.frames[c as int].bindings[nm].value,
                            self@.frames.len() as int,
                        ) by {
                            if nm != name@ {
                                assert(old_env.frames[c as int].bindings.contains_key(nm));
                            }
                        }
                        assert_env_inv_update(old_env, self@, c as int);
                        assert(forall|i: int|
                            0 <= i < self.frames@.len() ==> frame_names_unique(
                                #[trigger] self.frames@[i].bindings@,
                            ));
                    }
                    Ok(())
                }
            },
            None => {
                proof {
                    lemma_frame_map_push(
                        self.frames@[c as int].bindings@,
                        Binding { name: *name, value: value, is_const },
                    );
                }
                let ghost old_env = self@;
                let ghost old_frames = self.frames@;
                let ghost vv = value@;
                self.frames[c].bindings.push(Binding { name: name.clone(), value, is_const });
                proof {
                    lemma_frames_view_update(old_frames, c as int, self.frames@[c as int]);
                    assert(self@.frames =~= env_define(old_env, name@, vv, is_const).0.frames);
                    assert(frame_wf(old_env.frames[c as int], c as int, old_env.frames.len() as int));
                    assert forall|nm: Seq<char>| #[trigger] self@.frames[c as int].bindings.contains_key(
                        nm,
                    ) implies value_wf(
                        self@.frames[c as int].bindings[nm].value,
                        self@.frames.len() as int,
                    ) by {
                        if nm != name@ {
                            assert(old_env.frames[c as int].bindings.contains_key(nm));
                        }
                    }
                    assert_env_inv_update(old_env, self@, c as int);
                    lemma_frame_map_contains(old_frames[c as int].bindings@, name@);
                    assert(forall|i: int|
                        0 <= i < self.frames@.len() ==> frame_names_unique(
                            #[trigger] self.frames@[i].bindings@,
                        ));
                }
                Ok(())
            },
        }
    }

    /// Walks the frame chain from frame `i` outward and returns the value
    /// of the nearest binding of `name`.
    pub fn get_from(&self, i: usize, name: &String) -> (r: Result<Value, BindingError>)
        requires
            self.inv(),
            i < self.frames.len(),
        ensures
            match r {
                Ok(v) => {
                    &&& lookup(self@.frames, i as int, name@) matches Some(b) && b.value == v@
                    &&& value_wf(v@, self@.frames.len() as int)
                },
                Err(e) => {
                    &&& lookup(self@.frames, i as int, name@) is None
                    &&& e == BindingError::Undefined
                },
            },
        decreases i,
    {
        let found = self.frames[i].find(name);
        match found {
            Some(j) => {
                proof {
                    lemma_frame_map_index(self.frames@[i as int].bindings@, j as int, name@);
                    assert(frame_wf(self@.frames[i as int], i as int, self@.frames.len() as int));
                }
                Ok(self.frames[i].bindings[j].value.dup())
            },
            None => {
                match self.frames[i].parent {
                    Some(p) => {
                        proof {
                            assert(frame_wf(
                                self@.frames[i as int],
                                i as int,
                                self@.frames.len() as int,
                            ));
                        }
                        self.get_from(p, name)
                    },
                    None => Err(BindingError::Undefined),
                }
            },
        }
    }

    /// Walks the frame chain from the current frame outward and returns
    /// the first match; fails with `Undefined` if no enclosing frame binds
    /// `name`.
    pub fn get(&self, name: &String) -> (r: Result<Value, BindingError>)
        requires
            self.inv(),
        ensures
            match r {
                Ok(v) => {
                    &&& lookup(self@.frames, self@.cur, name@) matches Some(b) && b.value == v@
                    &&& value_wf(v@, self@.frames.len() as int)
                },
                Err(e) => {
                    &&& lookup(self@.frames, self@.cur, name@) is None
                    &&& e == BindingError::Undefined
                },
            },
    {
        let c = self.cur;
        self.get_from(c, name)
    }

    /// Assignment, walking the chain from frame `i` outward.
    pub fn assign_from(&mut self, i: usize, name: &String, value: Value) -> (r: Result<
        (),
        BindingError,
    >)
        requires
            old(self).inv(),
            i < old(self).frames.len(),
            value_wf(value@, old(self)@.frames.len() as int),
        ensures
            final(self).inv(),
            final(self)@.cur == old(self)@.cur,
            final(self)@.frames.len() == old(self)@.frames.len(),
            ({
                let (fs, err) = assign_frames(old(self)@.frames, i as int, name@, value@);
                match r {
                    Ok(_) => err is None && final(self)@.frames == fs,
                    Err(be) => err == Some(be) && final(self)@ == old(self)@,
                }
            }),
        decreases i,
    {
        let found = self.frames[i].find(name);
        match found {
            Some(j) => {
                if self.frames[i].bindings[j].is_const {
                    proof {
                        lemma_frame_map_index(self.frames@[i as int].bindings@, j as int, name@);
                    }
                    Err(BindingError::ConstReassignment)
                } else {
                    proof {
                        lemma_frame_map_index(self.frames@[i as int].bindings@, j as int, name@);
                        lemma_frame_map_update(
                            self.frames@[i as int].bindings@,
                            j as int,
                            Binding { name: *name, value: value, is_const: false },
                        );
                    }
                    let ghost old_env = self@;
                    let ghost old_frames = self.frames@;
                    let ghost vv = value@;
                    self.frames[i].bindings[j] = Binding {
                        name: name.clone(),
                        value,
                        is_const: false,
                    };
                    proof {
                        lemma_frames_view_update(old_frames, i as int, self.frames@[i as int]);
                        assert(self@.frames =~= assign_frames(
                            old_env.frames,
                            i as int,
                            name@,
                            vv,
                        ).0);
                        assert(frame_wf(
                            old_env.frames[i as int],
                            i as int,
                            old_env.frames.len() as int,
                        ));
                        assert forall|nm: Seq<char>|
                            #[trigger] self@.frames[i as int].bindings.contains_key(
                                nm,
                            ) implies value_wf(
                            self@.frames[i as int].bindings[nm].value,
                            self@.frames.len() as int,
                        ) by {
                            if nm != name@ {
                                assert(old_env.frames[i as int].bindings.contains_key(nm));
                            }
                        }
                        assert_env_inv_update(old_env, self@, i as int);
                        assert(forall|k: int|
                            0 <= k < self.frames@.len() ==> frame_names_unique(
                                #[trigger] self.frames@[k].bindings@,
                            ));
                    }
                    Ok(())
                }
            },
            None => {
                match self.frames[i].parent {
                    Some(p) => {
                        proof {
                            assert(frame_wf(
                                self@.frames[i as int],
                                i as int,
                                self@.frames.len() as int,
                            ));
                        }
                        self.assign_from(p, name, value)
                    },
                    None => Err(BindingError::Undefined),
                }
            },
        }
    }

    /// Walks the chain to the nearest frame defining `name` and overwrites
    /// its value there; fails with `Undefined` if no frame defines it and
    /// with `ConstReassignment` if the binding found is const.
    pub fn assign(&mut self, name: &String, value: Value) -> (r: Result<(), BindingError>)
        requires
            old(self).inv(),
            value_wf(value@, old(self)@.frames.len() as int),
        ensures
            final(self).inv(),
            final(self)@.frames.len() == old(self)@.frames.len(),
            ({
                let (e2, err) = env_assign(old(self)@, name@, value@);
                match r {
                    Ok(_) => err is None && final(self)@ == e2,
                    Err(be) => err == Some(be) && final(self)@ == old(self)@,
                }
            }),
    {
        let c = self.cur;
        self.assign_from(c, name, value)
    }

    /// Allocates a new frame sharing the arena, chained to `parent`, and
    /// makes it current.
    pub fn new_child(&mut self, parent: usize)
        requires
            old(self).inv(),
            parent < old(self).frames.len(),
        ensures
            final(self).inv(),
            final(self)@ == push_frame(old(self)@, parent as int),
    {
        let n = self.frames.len();
        let ghost old_env = self@;
        let ghost old_frames = self.frames@;
        self.frames.push(Frame { bindings: Vec::new(), parent: Some(parent) });
        self.cur = n;
        proof {
            lemma_frames_view_push(old_frames, self.frames@[n as int]);
            assert(self@.frames =~= push_frame(old_env, parent as int).frames);
            assert forall|k: int| 0 <= k < self@.frames.len() implies #[trigger] frame_wf(
                self@.frames[k],
                k,
                self@.frames.len() as int,
            ) by {
                if k < old_env.frames.len() {
                    assert(frame_wf(old_env.frames[k], k, old_env.frames.len() as int));
                    assert(self@.frames[k] == old_env.frames[k]);
                } else {
                    assert(self@.frames[k].bindings =~= Map::<Seq<char>, BindingV>::empty());
                }
            }
            assert(forall|k: int|
                0 <= k < self.frames@.len() ==> frame_names_unique(
                    #[trigger] self.frames@[k].bindings@,
                ));
        }
    }

    /// Restores `c` as the current frame.
    pub fn set_cur(&mut self, c: usize)
        requires
            old(self).inv(),
            c < old(self).frames.len(),
        ensures
            final(self).inv(),
            final(self)@ == (EnvV { cur: c as int, ..old(self)@ }),
    {
        self.cur = c;
    }
}

/// After updating one frame of a well-formed environment with a
/// well-formed binding map, the environment is well formed again.
proof fn assert_env_inv_update(old_e: EnvV, new_e: EnvV, c: int)
    requires
        env_wf(old_e),
        new_e.frames.len() == old_e.frames.len(),
        new_e.cur == old_e.cur,
        0 <= c < old_e.frames.len(),
        forall|i: int| 0 <= i < old_e.frames.len() && i != c ==> new_e.frames[i] == old_e.frames[i],
        new_e.frames[c].parent == old_e.frames[c].parent,
        forall|nm: Seq<char>|
            #[trigger] new_e.frames[c].bindings.contains_key(nm) ==> value_wf(
                new_e.frames[c].bindings[nm].value,
                new_e.frames.len() as int,
            ),
    ensures
        env_wf(new_e),
{
    assert forall|i: int| 0 <= i < new_e.frames.len() implies #[trigger] frame_wf(
        new_e.frames[i],
        i,
        new_e.frames.len() as int,
    ) by {
        assert(frame_wf(old_e.frames[i], i, old_e.frames.len() as int));
    }
}

} // verus!
