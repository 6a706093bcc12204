use vstd::prelude::*;
use crate::expr::Expr;

verus! {

/// The bindings of a chain of frames, outermost first and innermost last.
pub type Frames = Seq<Map<Seq<char>, Expr>>;

/// The bindings that a frame's entries make: a later entry for a name
/// overrides an earlier one.
pub open spec fn frame_view(f: Seq<(String, Expr)>) -> Map<Seq<char>, Expr>
    decreases f.len(),
{
    if f.len() == 0 {
        Map::empty()
    } else {
        frame_view(f.drop_last()).insert(f.last().0@, f.last().1)
    }
}

/// The value of `name` in the innermost frame that binds it.
pub open spec fn lookup(frames: Frames, name: Seq<char>) -> Option<Expr>
    decreases frames.len(),
{
    if frames.len() == 0 {
        None
    } else if frames.last().contains_key(name) {
        Some(frames.last()[name])
    } else {
        lookup(frames.drop_last(), name)
    }
}

/// `frames` with `name` bound to `value` in the innermost frame.
pub open spec fn bind(frames: Frames, name: Seq<char>, value: Expr) -> Frames {
    frames.update(frames.len() - 1, frames.last().insert(name, value))
}

/// `base` with the bindings that the entries `f` make added, replacing any
/// that `base` had for the same names.
pub open spec fn merged(base: Map<Seq<char>, Expr>, f: Seq<(String, Expr)>) -> Map<Seq<char>, Expr> {
    base.union_prefer_right(frame_view(f))
}

/// A chain of binding frames. Lookups search from the innermost frame
/// outward; writes go to the innermost frame. A frame pushed for a function
/// call is popped when the call returns, so the chain is kept as a stack.
pub struct Env {
    frames: Vec<Vec<(String, Expr)>>,
}

impl View for Env {
    type V = Frames;

    closed spec fn view(&self) -> Frames {
        self.frames@.map_values(|f: Vec<(String, Expr)>| frame_view(f@))
    }
}

proof fn lemma_merged_push(base: Map<Seq<char>, Expr>, f: Seq<(String, Expr)>, e: (String, Expr))
    ensures
        merged(base, f.push(e)) == merged(base, f).insert(e.0@, e.1),
{
    assert(f.push(e).drop_last() =~= f);
    assert(merged(base, f.push(e)) =~= merged(base, f).insert(e.0@, e.1));
}

proof fn lemma_found(f: Seq<(String, Expr)>, j: int, name: Seq<char>)
    requires
        0 <= j < f.len(),
        f[j].0@ == name,
        forall|i: int| j < i < f.len() ==> f[i].0@ != name,
    ensures
        frame_view(f).contains_key(name),
        frame_view(f)[name] == f[j].1,
    decreases f.len(),
{
    if j < f.len() - 1 {
        lemma_found(f.drop_last(), j, name);
    }
}

proof fn lemma_absent(f: Seq<(String, Expr)>, name: Seq<char>)
    requires
        forall|i: int| 0 <= i < f.len() ==> f[i].0@ != name,
    ensures
        !frame_view(f).contains_key(name),
    decreases f.len(),
{
    if f.len() > 0 {
        lemma_absent(f.drop_last(), name);
    }
}

proof fn lemma_replace(f: Seq<(String, Expr)>, j: int, e: (String, Expr))
    requires
        0 <= j < f.len(),
        f[j].0@ == e.0@,
        forall|i: int| j < i < f.len() ==> f[i].0@ != e.0@,
    ensures
        frame_view(f.update(j, e)) == frame_view(f).insert(e.0@, e.1),
    decreases f.len(),
{
    let g = f.update(j, e);
    if j == f.len() - 1 {
        assert(g.drop_last() =~= f.drop_last());
        assert(frame_view(g) =~= frame_view(f).insert(e.0@, e.1));
    } else {
        lemma_replace(f.drop_last(), j, e);
        assert(g.drop_last() =~= f.drop_last().update(j, e));
        assert(frame_view(g) =~= frame_view(f).insert(e.0@, e.1));
    }
}

impl Env {
    /// The chain has at least one frame.
    pub open spec fn wf(&self) -> bool {
        self@.len() >= 1
    }

    /// A chain of one empty frame.
    pub fn new() -> (r: Env)
        ensures
            r@ == seq![Map::<Seq<char>, Expr>::empty()],
            r.wf(),
    {
        let mut frames = Vec::new();
        frames.push(Vec::new());
        let r = Env { frames };
        assert(r@ =~= seq![Map::<Seq<char>, Expr>::empty()]);
        r
    }

    /// The chain `parent` with a new empty innermost frame.
    pub fn extend(parent: Env) -> (r: Env)
        ensures
            r@ == parent@.push(Map::empty()),
            r.wf(),
    {
        let mut r = parent;
        r.push_frame(Vec::new());
        r
    }

    /// Pushes a frame holding the bindings of `frame`.
    pub fn push_frame(&mut self, frame: Vec<(String, Expr)>)
        ensures
            final(self)@ == old(self)@.push(frame_view(frame@)),
    {
        let ghost f = frame@;
        self.frames.push(frame);
        assert(self@ =~= old(self)@.push(frame_view(f)));
    }

    /// Pops the innermost frame.
    pub fn pop_frame(&mut self)
        requires
            old(self)@.len() >= 2,
        ensures
            final(self)@ == old(self)@.drop_last(),
            final(self).wf(),
    {
        let _ = self.frames.pop();
        assert(self@ =~= old(self)@.drop_last());
    }

    /// The value that the innermost frame binding `name` holds.
    pub fn get(&self, name: &String) -> (r: Option<Expr>)
        ensures
            r == lookup(self@, name@),
    {
        let mut k = self.frames.len();
        assert(self@.take(k as int) =~= self@);
        while k > 0
            invariant
                k <= self.frames.len(),
                self@.len() == self.frames@.len(),
                lookup(self@, name@) == lookup(self@.take(k as int), name@),
            decreases k,
        {
            let f = &self.frames[k - 1];
            let mut j = f.len();
            while j > 0
                invariant
                    j <= f.len(),
                    0 < k <= self.frames.len(),
                    self@.len() == self.frames@.len(),
                    *f == self.frames@[k - 1],
                    forall|i: int| j <= i < f.len() ==> f@[i].0@ != name@,
                    lookup(self@, name@) == lookup(self@.take(k as int), name@),
                decreases j,
            {
                if f[j - 1].0 == *name {
                    proof {
                        lemma_found(f@, j - 1, name@);
                        assert(self@.take(k as int).last() == frame_view(f@));
                    }
                    return Some(f[j - 1].1.dup());
                }
                j -= 1;
            }
            proof {
                lemma_absent(f@, name@);
                assert(self@.take(k as int).last() == frame_view(f@));
                assert(self@.take(k as int).drop_last() =~= self@.take(k - 1));
            }
            k -= 1;
        }
        None
    }

    /// Binds `name` to `val` in the innermost frame, replacing an earlier
    /// binding of `name` there.
    pub fn set(&mut self, name: String, val: Expr)
        requires
            old(self).wf(),
        ensures
            final(self)@ == bind(old(self)@, name@, val),
            final(self).wf(),
    {
        let ghost old_view = self@;
        let ghost old_frames = self.frames@;
        let mut f = self.frames.pop().unwrap();
        assert(frame_view(f@) == old_view.last());
        let ghost f0 = f@;
        assert(self.frames@ == old_frames.drop_last());
        let mut j = f.len();
        while j > 0
            invariant
                j <= f.len(),
                f@ == f0,
                frame_view(f0) == old_view.last(),
                old_view == old(self)@,
                old_frames.len() >= 1,
                old_view == old_frames.map_values(|v: Vec<(String, Expr)>| frame_view(v@)),
                self.frames@ == old_frames.drop_last(),
                forall|i: int| j <= i < f.len() ==> f@[i].0@ != name@,
            decreases j,
        {
            if f[j - 1].0 == name {
                proof {
                    lemma_replace(f@, j - 1, (name, val));
                }
                let ghost g = f0.update(j - 1, (name, val));
                f.set(j - 1, (name, val));
                assert(f@ == g);
                self.frames.push(f);
                assert(self.frames@ == old_frames.drop_last().push(f));
                assert(frame_view(g) == old_view.last().insert(name@, val));
                assert(self@ =~= bind(old_view, name@, val));
                return;
            }
            j -= 1;
        }
        f.push((name, val));
        assert(f@.drop_last() =~= f0);
        self.frames.push(f);
        assert(self.frames@ == old_frames.drop_last().push(f));
        assert(frame_view(f@) == old_view.last().insert(name@, val));
        assert(self@ =~= bind(old_view, name@, val));
    }

    /// Copies the bindings of `data`'s innermost frame into this chain's
    /// innermost frame; `data`'s outer frames are not read.
    pub fn update(&mut self, data: &Env)
        requires
            old(self).wf(),
            data.wf(),
        ensures
            final(self)@ == old(self)@.update(
                old(self)@.len() - 1,
                old(self)@.last().union_prefer_right(data@.last()),
            ),
            final(self).wf(),
    {
        let src = &data.frames[data.frames.len() - 1];
        assert(frame_view(src@) == data@.last());
        let mut i: usize = 0;
        assert(src@.take(0) =~= Seq::<(String, Expr)>::empty());
        assert(merged(old(self)@.last(), src@.take(0)) =~= old(self)@.last());
        assert(old(self)@ =~= old(self)@.update(old(self)@.len() - 1, old(self)@.last()));
        while i < src.len()
            invariant
                i <= src.len(),
                self.wf(),
                self@ == old(self)@.update(
                    old(self)@.len() - 1,
                    merged(old(self)@.last(), src@.take(i as int)),
                ),
                old(self)@.len() >= 1,
            decreases src.len() - i,
        {
            let name = src[i].0.clone();
            let val = src[i].1.dup();
            self.set(name, val);
            proof {
                lemma_merged_push(old(self)@.last(), src@.take(i as int), src@[i as int]);
                assert(src@.take(i + 1) =~= src@.take(i as int).push(src@[i as int]));
                assert(self@ =~= old(self)@.update(
                    old(self)@.len() - 1,
                    merged(old(self)@.last(), src@.take(i + 1)),
                ));
            }
            i += 1;
        }
        assert(src@.take(i as int) =~= src@);
    }
}

} // verus!
