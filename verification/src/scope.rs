//! Scopes of identifiers and tags.

use vstd::prelude::*;
use rustc_hash::FxHashMap;
use crate::constexpr::ConstValue;
use crate::maps::{map_get, map_insert, map_new};
use crate::types::{Symbol, Type};

verus! {

/// An ordinary identifier.
#[derive(Clone, Copy, Debug, PartialEq, Eq, Structural)]
pub enum OrdinaryIdent {
    Local(usize),
    /// A global variable.
    ///
    /// The second argument represents whether it has linkage, i.e., whether it
    /// can be declared via "extern".
    Global(usize, bool),
    Function(usize),
    Typedef(Type),
    Enumerator(ConstValue),
}

/// A scope frame.
pub struct ScopeFrame {
    /// The namespace of ordinary identifiers.
    pub idents: FxHashMap<usize, OrdinaryIdent>,
    /// The namespace of struct, union, and enum tags.
    pub tags: FxHashMap<usize, Type>,
}

/// The mathematical form of [`ScopeFrame`].
pub struct FrameView {
    pub idents: Map<usize, OrdinaryIdent>,
    pub tags: Map<usize, Type>,
}

/// A frame that binds nothing.
pub open spec fn empty_frame() -> FrameView {
    FrameView { idents: Map::empty(), tags: Map::empty() }
}

/// The frames of a list, each in its mathematical form.
pub open spec fn frame_views(frames: Seq<ScopeFrame>) -> Seq<FrameView> {
    Seq::new(frames.len(), |k: int| frames[k]@)
}

/// What a name is bound to in one frame.
pub open spec fn ident_in(frame: FrameView, name: Symbol) -> Option<OrdinaryIdent> {
    if frame.idents.contains_key(name.0) {
        Some(frame.idents[name.0])
    } else {
        None
    }
}

/// What a tag is bound to in one frame.
pub open spec fn tag_in(frame: FrameView, name: Symbol) -> Option<Type> {
    if frame.tags.contains_key(name.0) {
        Some(frame.tags[name.0])
    } else {
        None
    }
}

/// What a name is bound to in the innermost frame that binds it.
pub open spec fn visible_ident(frames: Seq<FrameView>, name: Symbol) -> Option<OrdinaryIdent>
    decreases frames.len(),
{
    if frames.len() == 0 {
        None
    } else if ident_in(frames.last(), name) is Some {
        ident_in(frames.last(), name)
    } else {
        visible_ident(frames.drop_last(), name)
    }
}

/// What a tag is bound to in the innermost frame that binds it.
pub open spec fn visible_tag(frames: Seq<FrameView>, name: Symbol) -> Option<Type>
    decreases frames.len(),
{
    if frames.len() == 0 {
        None
    } else if tag_in(frames.last(), name) is Some {
        tag_in(frames.last(), name)
    } else {
        visible_tag(frames.drop_last(), name)
    }
}

/// The innermost global with linkage that a name is bound to.
pub open spec fn linked_global(frames: Seq<FrameView>, name: Symbol) -> Option<usize>
    decreases frames.len(),
{
    if frames.len() == 0 {
        None
    } else {
        match ident_in(frames.last(), name) {
            Some(OrdinaryIdent::Global(id, true)) => Some(id),
            _ => linked_global(frames.drop_last(), name),
        }
    }
}

/// The innermost function that a name is bound to.
pub open spec fn linked_function(frames: Seq<FrameView>, name: Symbol) -> Option<usize>
    decreases frames.len(),
{
    if frames.len() == 0 {
        None
    } else {
        match ident_in(frames.last(), name) {
            Some(OrdinaryIdent::Function(id)) => Some(id),
            _ => linked_function(frames.drop_last(), name),
        }
    }
}

/// A name bound in the innermost frame hides every outer binding, and leaves
/// what other names mean unchanged.
pub proof fn inner_binding_hides_outer(
    frames: Seq<FrameView>,
    frame: FrameView,
    name: Symbol,
    other: Symbol,
)
    ensures
        ident_in(frame, name) is Some ==> visible_ident(frames.push(frame), name) == ident_in(
            frame,
            name,
        ),
        ident_in(frame, other) is None ==> visible_ident(frames.push(frame), other)
            == visible_ident(frames, other),
{
    assert(frames.push(frame).drop_last() =~= frames);
}

impl ScopeFrame {
    pub open spec fn view(&self) -> FrameView {
        FrameView { idents: self.idents@, tags: self.tags@ }
    }

    /// A frame that binds nothing.
    pub fn new() -> (r: ScopeFrame)
        ensures
            r@ == empty_frame(),
    {
        let frame = ScopeFrame { idents: map_new(), tags: map_new() };
        assert(frame@.idents =~= Map::<usize, OrdinaryIdent>::empty());
        assert(frame@.tags =~= Map::<usize, Type>::empty());
        frame
    }

    /// Find an ordinary identifier in this frame.
    pub fn ident(&self, name: Symbol) -> (r: Option<OrdinaryIdent>)
        ensures
            r == ident_in(self@, name),
    {
        map_get(&self.idents, name.0)
    }

    /// Find a tag in this frame.
    pub fn tag(&self, name: Symbol) -> (r: Option<Type>)
        ensures
            r == tag_in(self@, name),
    {
        map_get(&self.tags, name.0)
    }

    /// Bind an ordinary identifier in this frame.
    pub fn bind_ident(&mut self, name: Symbol, ident: OrdinaryIdent)
        ensures
            final(self)@ == (FrameView { idents: old(self)@.idents.insert(name.0, ident), ..old(self)@ }),
    {
        let _ = map_insert(&mut self.idents, name.0, ident);
    }

    /// Bind a tag in this frame.
    pub fn bind_tag(&mut self, name: Symbol, ty: Type)
        ensures
            final(self)@ == (FrameView { tags: old(self)@.tags.insert(name.0, ty), ..old(self)@ }),
    {
        let _ = map_insert(&mut self.tags, name.0, ty);
    }
}

/// Find an ordinary identifier in the innermost frame that binds it.
pub fn find_ident(frames: &Vec<ScopeFrame>, name: Symbol) -> (r: Option<OrdinaryIdent>)
    ensures
        r == visible_ident(frame_views(frames@), name),
{
    let ghost all = frame_views(frames@);
    let mut i: usize = frames.len();
    assert(all.take(all.len() as int) =~= all);
    while i > 0
        invariant
            i <= frames.len(),
            all == frame_views(frames@),
            visible_ident(all, name) == visible_ident(all.take(i as int), name),
        decreases i,
    {
        i -= 1;
        assert(all.take(i + 1).drop_last() =~= all.take(i as int));
        let found = frames[i].ident(name);
        if found.is_some() {
            return found;
        }
    }
    None
}

/// Find a tag in the innermost frame that binds it.
pub fn find_tag(frames: &Vec<ScopeFrame>, name: Symbol) -> (r: Option<Type>)
    ensures
        r == visible_tag(frame_views(frames@), name),
{
    let ghost all = frame_views(frames@);
    let mut i: usize = frames.len();
    assert(all.take(all.len() as int) =~= all);
    while i > 0
        invariant
            i <= frames.len(),
            all == frame_views(frames@),
            visible_tag(all, name) == visible_tag(all.take(i as int), name),
        decreases i,
    {
        i -= 1;
        assert(all.take(i + 1).drop_last() =~= all.take(i as int));
        let found = frames[i].tag(name);
        if found.is_some() {
            return found;
        }
    }
    None
}

/// Find the innermost global with linkage in all frames but the last.
pub fn find_outer_global(frames: &Vec<ScopeFrame>, name: Symbol) -> (r: Option<usize>)
    requires
        frames@.len() > 0,
    ensures
        r == linked_global(frame_views(frames@).drop_last(), name),
{
    let ghost all = frame_views(frames@);
    let mut i: usize = frames.len() - 1;
    assert(all.take(all.len() - 1) =~= all.drop_last());
    while i > 0
        invariant
            i < frames.len(),
            all == frame_views(frames@),
            linked_global(all.drop_last(), name) == linked_global(all.take(i as int), name),
        decreases i,
    {
        i -= 1;
        assert(all.take(i + 1).drop_last() =~= all.take(i as int));
        if let Some(OrdinaryIdent::Global(id, true)) = frames[i].ident(name) {
            return Some(id);
        }
    }
    None
}

/// Find the innermost function in all frames but the last.
pub fn find_outer_function(frames: &Vec<ScopeFrame>, name: Symbol) -> (r: Option<usize>)
    requires
        frames@.len() > 0,
    ensures
        r == linked_function(frame_views(frames@).drop_last(), name),
{
    let ghost all = frame_views(frames@);
    let mut i: usize = frames.len() - 1;
    assert(all.take(all.len() - 1) =~= all.drop_last());
    while i > 0
        invariant
            i < frames.len(),
            all == frame_views(frames@),
            linked_function(all.drop_last(), name) == linked_function(all.take(i as int), name),
        decreases i,
    {
        i -= 1;
        assert(all.take(i + 1).drop_last() =~= all.take(i as int));
        if let Some(OrdinaryIdent::Function(id)) = frames[i].ident(name) {
            return Some(id);
        }
    }
    None
}

} // verus!
