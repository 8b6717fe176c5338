//! Lexically scoped variable tables used by both checker phases.
use crate::ast::{Ty, TyM};
use crate::text::str_eq;
use vstd::prelude::*;

verus! {

/// Information stored for each local variable.
pub struct VarInfo {
    pub ty: Ty,
    pub mutable: bool,
    pub moved: bool,
}

pub struct VarM {
    pub ty: TyM,
    pub mutable: bool,
    pub moved: bool,
}

impl View for VarInfo {
    type V = VarM;

    open spec fn view(&self) -> VarM {
        VarM { ty: self.ty@, mutable: self.mutable, moved: self.moved }
    }
}

/// One block's variables, in insertion order.
pub type FrameM = Seq<(Seq<char>, VarM)>;

/// A stack of frames, innermost last.
pub type ScopeM = Seq<FrameM>;

/// The most recent entry for `k` in a frame.
pub open spec fn frame_get(f: FrameM, k: Seq<char>) -> Option<VarM>
    decreases f.len(),
{
    if f.len() == 0 {
        None
    } else if f.last().0 == k {
        Some(f.last().1)
    } else {
        frame_get(f.drop_last(), k)
    }
}

/// Looks a name up from the innermost frame outward.
pub open spec fn lookup_m(sc: ScopeM, k: Seq<char>) -> Option<VarM>
    decreases sc.len(),
{
    if sc.len() == 0 {
        None
    } else {
        match frame_get(sc.last(), k) {
            Some(v) => Some(v),
            None => lookup_m(sc.drop_last(), k),
        }
    }
}

/// Defines a variable in the innermost frame.
pub open spec fn insert_m(sc: ScopeM, k: Seq<char>, v: VarM) -> ScopeM {
    sc.update(sc.len() - 1, sc.last().push((k, v)))
}

/// A new variable of type `ty`.
pub open spec fn fresh_var(ty: TyM, mutable: bool) -> VarM {
    VarM { ty, mutable, moved: false }
}

/// No variable in the scope is marked as moved.
pub open spec fn all_unmoved(sc: ScopeM) -> bool {
    forall|i: int, j: int|
        0 <= i < sc.len() && 0 <= j < sc[i].len() ==> !(#[trigger] sc[i][j]).1.moved
}

pub proof fn lemma_lookup_unmoved(sc: ScopeM, k: Seq<char>)
    requires
        all_unmoved(sc),
    ensures
        lookup_m(sc, k) matches Some(v) ==> !v.moved,
    decreases sc.len(),
{
    if sc.len() > 0 {
        lemma_frame_unmoved(sc.last(), k, sc.len() - 1, sc);
        lemma_lookup_unmoved(sc.drop_last(), k);
    }
}

proof fn lemma_frame_unmoved(f: FrameM, k: Seq<char>, idx: int, sc: ScopeM)
    requires
        all_unmoved(sc),
        0 <= idx < sc.len(),
        f.len() <= sc[idx].len(),
        f =~= sc[idx].take(f.len() as int),
    ensures
        frame_get(f, k) matches Some(v) ==> !v.moved,
    decreases f.len(),
{
    if f.len() > 0 {
        assert(f.last() == sc[idx][f.len() - 1]);
        lemma_frame_unmoved(f.drop_last(), k, idx, sc);
    }
}

/// A stack of frames, one per block; lookups search from the innermost frame outward.
pub struct Scope {
    frames: Vec<Vec<(String, VarInfo)>>,
}

impl View for Scope {
    type V = ScopeM;

    closed spec fn view(&self) -> ScopeM {
        frames_view(self.frames@)
    }
}

fn clone_var(v: &VarInfo) -> (r: VarInfo)
    ensures
        r@ == v@,
{
    VarInfo { ty: v.ty.clone_ty(), mutable: v.mutable, moved: v.moved }
}

impl Scope {
    pub fn new() -> (r: Self)
        ensures
            r@ == seq![Seq::<(Seq<char>, VarM)>::empty()],
    {
        let mut frames: Vec<Vec<(String, VarInfo)>> = Vec::new();
        frames.push(Vec::new());
        let r = Scope { frames };
        assert(r@[0] =~= Seq::<(Seq<char>, VarM)>::empty());
        assert(r@ =~= seq![Seq::<(Seq<char>, VarM)>::empty()]);
        r
    }

    /// Opens a new innermost frame.
    pub fn push(&mut self)
        ensures
            final(self)@ == old(self)@.push(Seq::empty()),
    {
        self.frames.push(Vec::new());
        assert(final(self)@[old(self)@.len() as int] =~= Seq::<(Seq<char>, VarM)>::empty());
        assert(final(self)@ =~= old(self)@.push(Seq::empty()));
    }

    /// Closes the innermost frame, if any.
    pub fn pop(&mut self)
        ensures
            final(self)@ == if old(self)@.len() > 0 {
                old(self)@.drop_last()
            } else {
                old(self)@
            },
    {
        if self.frames.len() > 0 {
            self.frames.pop();
            assert(final(self)@ =~= old(self)@.drop_last());
        }
    }

    /// Defines a new, not-moved variable in the innermost frame.
    pub fn insert(&mut self, name: String, ty: Ty, mutable: bool)
        requires
            old(self)@.len() > 0,
        ensures
            final(self)@ == insert_m(old(self)@, name@, fresh_var(ty@, mutable)),
    {
        let ghost k = name@;
        let ghost v = fresh_var(ty@, mutable);
        let mut last = self.frames.pop().unwrap();
        last.push((name, VarInfo { ty, mutable, moved: false }));
        self.frames.push(last);
        assert(final(self)@ =~= insert_m(old(self)@, k, v)) by {
            assert forall|i: int| 0 <= i < final(self)@.len() implies #[trigger] final(self)@[i]
                =~= insert_m(old(self)@, k, v)[i] by {
                if i < final(self)@.len() - 1 {
                    assert(self.frames@[i] == old(self).frames@[i]);
                }
            }
        }
    }

    /// Looks a variable up by name, searching from the innermost frame outward.
    pub fn lookup(&self, name: &str) -> (r: Option<&VarInfo>)
        ensures
            match r {
                Some(v) => lookup_m(self@, name@) == Some(v@),
                None => lookup_m(self@, name@) is None,
            },
    {
        let mut i = self.frames.len();
        assert(self@.take(i as int) =~= self@);
        while i > 0
            invariant
                i <= self.frames.len(),
                lookup_m(self@, name@) == lookup_m(self@.take(i as int), name@),
            decreases i,
        {
            let frame = &self.frames[i - 1];
            let ghost f = self@[i - 1];
            assert(self@.take(i as int).last() == f);
            assert(self@.take(i as int).drop_last() =~= self@.take(i - 1));
            let mut j = frame.len();
            assert(f.take(j as int) =~= f);
            while j > 0
                invariant
                    j <= frame.len(),
                    0 < i <= self.frames.len(),
                    lookup_m(self@, name@) == lookup_m(self@.take(i as int), name@),
                    self@.take(i as int).last() == f,
                    self@.take(i as int).drop_last() =~= self@.take(i - 1),
                    f == self@[i - 1],
                    frame == self.frames@[i - 1],
                    f.len() == frame.len(),
                    forall|t: int| 0 <= t < f.len() ==> #[trigger] f[t] == (frame@[t].0@, frame@[t].1@),
                    frame_get(f, name@) == frame_get(f.take(j as int), name@),
                decreases j,
            {
                assert(f.take(j as int).drop_last() =~= f.take(j - 1));
                assert(f.take(j as int).last() == f[j - 1]);
                if str_eq(frame[j - 1].0.as_str(), name) {
                    return Some(&frame[j - 1].1);
                }
                j -= 1;
            }
            i -= 1;
        }
        None
    }

    /// Marks the innermost variable named `name` as moved.
    pub fn set_moved(&mut self, name: &str)
        ensures
            final(self)@ == set_moved_m(old(self)@, name@),
            final(self)@.len() == old(self)@.len(),
    {
        set_moved_frames(&mut self.frames, name);
        assert(final(self)@ =~= set_moved_m(old(self)@, name@));
        proof {
            lemma_set_moved_len(old(self)@, name@);
        }
    }

    /// A copy of every entry of every frame, outermost frame first.
    pub fn entries(&self) -> (r: Vec<(String, bool)>)
        ensures
            r@.len() == flatten_m(self@).len(),
            forall|i: int| 0 <= i < r@.len() ==> (#[trigger] r@[i]).0@ == flatten_m(self@)[i].0
                && r@[i].1 == flatten_m(self@)[i].1.moved,
    {
        let mut out: Vec<(String, bool)> = Vec::new();
        let mut i: usize = 0;
        while i < self.frames.len()
            invariant
                i <= self.frames.len(),
                out@.len() == flatten_m(self@.take(i as int)).len(),
                forall|t: int| 0 <= t < out@.len() ==> (#[trigger] out@[t]).0@ == flatten_m(
                    self@.take(i as int),
                )[t].0 && out@[t].1 == flatten_m(self@.take(i as int))[t].1.moved,
            decreases self.frames.len() - i,
        {
            let frame = &self.frames[i];
            let ghost f = self@[i as int];
            let ghost base = out@;
            let ghost before = flatten_m(self@.take(i as int));
            assert(self@.take(i + 1).drop_last() =~= self@.take(i as int));
            assert(self@.take(i + 1).last() == f);
            let mut j: usize = 0;
            while j < frame.len()
                invariant
                    j <= frame.len(),
                    frame == self.frames@[i as int],
                    f == self@[i as int],
                    f.len() == frame.len(),
                    forall|t: int| 0 <= t < f.len() ==> #[trigger] f[t] == (frame@[t].0@, frame@[t].1@),
                    out@.len() == before.len() + j,
                    forall|t: int| 0 <= t < before.len() ==> (#[trigger] out@[t]).0@ == before[t].0
                        && out@[t].1 == before[t].1.moved,
                    forall|t: int| before.len() <= t < out@.len() ==> (#[trigger] out@[t]).0@ == f[t - before.len()].0
                        && out@[t].1 == f[t - before.len()].1.moved,
                decreases frame.len() - j,
            {
                out.push((frame[j].0.clone(), frame[j].1.moved));
                j += 1;
            }
            proof {
                let after = flatten_m(self@.take(i + 1));
                assert(after =~= before + f);
                assert forall|t: int| 0 <= t < out@.len() implies (#[trigger] out@[t]).0@ == after[t].0
                    && out@[t].1 == after[t].1.moved by {
                    if t >= before.len() {
                        assert(after[t] == f[t - before.len()]);
                    }
                }
            }
            i += 1;
        }
        assert(self@.take(self.frames.len() as int) =~= self@);
        out
    }

    /// A copy of this scope.
    pub fn clone_scope(&self) -> (r: Scope)
        ensures
            r@ == self@,
    {
        let mut frames: Vec<Vec<(String, VarInfo)>> = Vec::new();
        let mut i: usize = 0;
        while i < self.frames.len()
            invariant
                i <= self.frames.len(),
                frames@.len() == i,
                forall|a: int| 0 <= a < i ==> (#[trigger] frames@[a])@.len() == self.frames@[a]@.len(),
                forall|a: int, b: int| 0 <= a < i && 0 <= b < frames@[a]@.len() ==> (#[trigger] frames@[a]@[b]).0@
                    == self.frames@[a]@[b].0@ && frames@[a]@[b].1@ == self.frames@[a]@[b].1@,
            decreases self.frames.len() - i,
        {
            let src = &self.frames[i];
            let mut f: Vec<(String, VarInfo)> = Vec::new();
            let mut j: usize = 0;
            while j < src.len()
                invariant
                    j <= src.len(),
                    src == self.frames@[i as int],
                    f@.len() == j,
                    forall|b: int| 0 <= b < j ==> (#[trigger] f@[b]).0@ == src@[b].0@ && f@[b].1@ == src@[b].1@,
                decreases src.len() - j,
            {
                f.push((src[j].0.clone(), clone_var(&src[j].1)));
                j += 1;
            }
            frames.push(f);
            i += 1;
        }
        let r = Scope { frames };
        assert(r@ =~= self@) by {
            assert forall|a: int| 0 <= a < r@.len() implies #[trigger] r@[a] =~= self@[a] by {}
        }
        r
    }
}

/// All entries of all frames, outermost frame first.
pub open spec fn flatten_m(sc: ScopeM) -> FrameM
    decreases sc.len(),
{
    if sc.len() == 0 {
        Seq::empty()
    } else {
        flatten_m(sc.drop_last()) + sc.last()
    }
}

/// The frame with its most recent entry for `k` marked as moved.
pub open spec fn frame_set_moved(f: FrameM, k: Seq<char>) -> FrameM
    decreases f.len(),
{
    if f.len() == 0 {
        f
    } else if f.last().0 == k {
        f.drop_last().push((k, VarM { moved: true, ..f.last().1 }))
    } else {
        frame_set_moved(f.drop_last(), k).push(f.last())
    }
}

/// The scope with the innermost variable named `k` marked as moved.
pub open spec fn set_moved_m(sc: ScopeM, k: Seq<char>) -> ScopeM
    decreases sc.len(),
{
    if sc.len() == 0 {
        sc
    } else if frame_get(sc.last(), k) is Some {
        sc.drop_last().push(frame_set_moved(sc.last(), k))
    } else {
        set_moved_m(sc.drop_last(), k).push(sc.last())
    }
}

/// Marking a variable moved keeps the number of frames.
pub proof fn lemma_set_moved_len(sc: ScopeM, k: Seq<char>)
    ensures
        set_moved_m(sc, k).len() == sc.len(),
    decreases sc.len(),
{
    if sc.len() > 0 && frame_get(sc.last(), k) is None {
        lemma_set_moved_len(sc.drop_last(), k);
    }
}

pub open spec fn frames_view(fs: Seq<Vec<(String, VarInfo)>>) -> ScopeM {
    Seq::new(fs.len(), |i: int| frame_view(fs[i]@))
}

pub open spec fn frame_view(f: Seq<(String, VarInfo)>) -> FrameM {
    Seq::new(f.len(), |j: int| (f[j].0@, f[j].1@))
}

proof fn lemma_frame_set_moved_absent(f: FrameM, k: Seq<char>)
    requires
        frame_get(f, k) is None,
    ensures
        frame_set_moved(f, k) == f,
    decreases f.len(),
{
    if f.len() > 0 {
        lemma_frame_set_moved_absent(f.drop_last(), k);
        assert(f.drop_last().push(f.last()) =~= f);
    }
}

fn set_moved_frame(frame: &mut Vec<(String, VarInfo)>, name: &str) -> (found: bool)
    ensures
        found == (frame_get(frame_view(old(frame)@), name@) is Some),
        frame_view(final(frame)@) == frame_set_moved(frame_view(old(frame)@), name@),
    decreases old(frame)@.len(),
{
    if frame.len() == 0 {
        assert(frame_view(frame@) =~= Seq::<(Seq<char>, VarM)>::empty());
        return false;
    }
    let (k, v) = frame.pop().unwrap();
    let ghost rest0 = frame@;
    assert(frame_view(old(frame)@).drop_last() =~= frame_view(rest0));
    if str_eq(k.as_str(), name) {
        let v2 = VarInfo { ty: v.ty, mutable: v.mutable, moved: true };
        frame.push((k, v2));
        assert(frame_view(final(frame)@) =~= frame_set_moved(frame_view(old(frame)@), name@));
        true
    } else {
        let found = set_moved_frame(frame, name);
        frame.push((k, v));
        assert(frame_view(final(frame)@) =~= frame_set_moved(frame_view(old(frame)@), name@));
        found
    }
}

fn set_moved_frames(frames: &mut Vec<Vec<(String, VarInfo)>>, name: &str)
    ensures
        frames_view(final(frames)@) == set_moved_m(frames_view(old(frames)@), name@),
    decreases old(frames)@.len(),
{
    if frames.len() == 0 {
        assert(frames_view(frames@) =~= frames_view(old(frames)@));
        return;
    }
    let mut last = frames.pop().unwrap();
    let ghost rest0 = frames@;
    let ghost last0 = last@;
    assert(frames_view(old(frames)@).drop_last() =~= frames_view(rest0));
    assert(frames_view(old(frames)@).last() =~= frame_view(last0));
    let found = set_moved_frame(&mut last, name);
    if found {
        frames.push(last);
        assert(frames_view(final(frames)@) =~= set_moved_m(frames_view(old(frames)@), name@));
    } else {
        proof { lemma_frame_set_moved_absent(frame_view(last0), name@); }
        set_moved_frames(frames, name);
        frames.push(last);
        assert(frames_view(final(frames)@) =~= set_moved_m(frames_view(old(frames)@), name@));
    }
}

} // verus!
