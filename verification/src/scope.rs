//! Scopes: the contextual data that is merged into events while it is in
//! force, and the stack of scopes of one execution context.

use crate::protocol::{
    opt_texts, replicate_texts, Breadcrumb, BreadcrumbView, Context, ContextView, Event,
    EventView, JsonValue, User, UserView,
};
use crate::strmap::StrMap;
use crate::views::{keep_last, opt_view, replicate_opt, replicate_vec, views, Replicate};
use vstd::prelude::*;

verus! {

/// Contextual data that is merged into the events captured while the scope
/// is in force.
#[derive(Debug)]
pub struct Scope {
    pub fingerprint: Option<Vec<String>>,
    pub user: Option<User>,
    pub tags: StrMap<String>,
    pub extra: StrMap<JsonValue>,
    pub contexts: StrMap<Context>,
    pub breadcrumbs: Vec<Breadcrumb>,
}

/// What a `Scope` holds, as mathematical values.
pub ghost struct ScopeView {
    pub fingerprint: Option<Seq<Seq<char>>>,
    pub user: Option<UserView>,
    pub tags: Map<Seq<char>, Seq<char>>,
    pub extra: Map<Seq<char>, serde_json::Value>,
    pub contexts: Map<Seq<char>, ContextView>,
    pub breadcrumbs: Seq<BreadcrumbView>,
}

impl View for Scope {
    type V = ScopeView;

    open spec fn view(&self) -> ScopeView {
        ScopeView {
            fingerprint: opt_texts(self.fingerprint),
            user: opt_view(self.user),
            tags: self.tags@,
            extra: self.extra@,
            contexts: self.contexts@,
            breadcrumbs: views(self.breadcrumbs@),
        }
    }
}

/// The scope that holds nothing.
pub open spec fn empty_scope() -> ScopeView {
    ScopeView {
        fingerprint: None,
        user: None,
        tags: Map::empty(),
        extra: Map::empty(),
        contexts: Map::empty(),
        breadcrumbs: Seq::empty(),
    }
}

/// `first` if it holds something, else `second`.
pub open spec fn or_else<T>(first: Option<T>, second: Option<T>) -> Option<T> {
    if first.is_some() {
        first
    } else {
        second
    }
}

/// The scope `base` with `top` laid over it. For tags, extra data and
/// contexts the entry of `top` wins where both have a key. The user and the
/// fingerprint of `top` win where `top` has one. The breadcrumbs of `top`
/// follow those of `base`, and of the whole list the newest `cap` are kept.
pub open spec fn overlay(base: ScopeView, top: ScopeView, cap: nat) -> ScopeView {
    ScopeView {
        fingerprint: or_else(top.fingerprint, base.fingerprint),
        user: or_else(top.user, base.user),
        tags: base.tags.union_prefer_right(top.tags),
        extra: base.extra.union_prefer_right(top.extra),
        contexts: base.contexts.union_prefer_right(top.contexts),
        breadcrumbs: keep_last(base.breadcrumbs + top.breadcrumbs, cap),
    }
}

/// The event `event` with the scope `scope` merged into it. For tags, extra
/// data and contexts the entry of the scope wins where both have a key. The
/// event keeps its own user and fingerprint where it has one. The
/// breadcrumbs of the scope follow those of the event, and of the whole list
/// the newest `cap` are kept.
pub open spec fn event_with_scope(event: EventView, scope: ScopeView, cap: nat) -> EventView {
    EventView {
        fingerprint: or_else(event.fingerprint, scope.fingerprint),
        user: or_else(event.user, scope.user),
        tags: event.tags.union_prefer_right(scope.tags),
        extra: event.extra.union_prefer_right(scope.extra),
        contexts: event.contexts.union_prefer_right(scope.contexts),
        breadcrumbs: keep_last(event.breadcrumbs + scope.breadcrumbs, cap),
        ..event
    }
}

/// Appends copies of `more` to `list` and keeps the newest `cap` items.
fn append_capped<T: Replicate>(list: &mut Vec<T>, more: &Vec<T>, cap: usize)
    ensures
        views(final(list)@) == keep_last(views(old(list)@) + views(more@), cap as nat),
{
    let mut copies = replicate_vec(more);
    list.append(&mut copies);
    let n = list.len();
    if n > cap {
        let kept = list.split_off(n - cap);
        *list = kept;
    }
}

impl Scope {
    /// A scope that holds nothing.
    pub fn new() -> (r: Scope)
        ensures
            r@ == empty_scope(),
    {
        let r = Scope {
            fingerprint: None,
            user: None,
            tags: StrMap::new(),
            extra: StrMap::new(),
            contexts: StrMap::new(),
            breadcrumbs: Vec::new(),
        };
        assert(r@.breadcrumbs =~= Seq::empty());
        r
    }

    /// Resets the scope to hold nothing.
    pub fn clear(&mut self)
        ensures
            final(self)@ == empty_scope(),
    {
        *self = Scope::new();
    }

    /// Sets the fingerprint, or removes it with `None`.
    pub fn set_fingerprint(&mut self, fingerprint: Option<&[&str]>)
        ensures
            final(self)@ == (ScopeView {
                fingerprint: match fingerprint {
                    Some(parts) => Some(views(parts@)),
                    None => None,
                },
                ..old(self)@
            }),
    {
        match fingerprint {
            Some(parts) => {
                let mut texts: Vec<String> = Vec::new();
                let mut i: usize = 0;
                while i < parts.len()
                    invariant
                        i <= parts@.len(),
                        texts@.len() == i,
                        forall|j: int| 0 <= j < i ==> texts@[j]@ == parts@[j]@,
                    decreases parts@.len() - i,
                {
                    texts.push(parts[i].to_owned());
                    i += 1;
                }
                assert(views(texts@) =~= views(parts@));
                self.fingerprint = Some(texts);
            },
            None => {
                self.fingerprint = None;
            },
        }
    }

    /// Sets the user, or removes it with `None`.
    pub fn set_user(&mut self, user: Option<User>)
        ensures
            final(self)@ == (ScopeView { user: opt_view(user), ..old(self)@ }),
    {
        self.user = user;
    }

    /// Sets the tag `key` to `value`.
    pub fn set_tag(&mut self, key: &str, value: &str)
        ensures
            final(self)@ == (ScopeView {
                tags: old(self)@.tags.insert(key@, value@),
                ..old(self)@
            }),
    {
        self.tags.insert(key.to_owned(), value.to_owned());
    }

    /// Removes the tag `key`, if it is set.
    pub fn remove_tag(&mut self, key: &str)
        ensures
            final(self)@ == (ScopeView { tags: old(self)@.tags.remove(key@), ..old(self)@ }),
    {
        let _ = self.tags.remove(key);
    }

    /// Sets the context `key` to `value`.
    pub fn set_context(&mut self, key: &str, value: Context)
        ensures
            final(self)@ == (ScopeView {
                contexts: old(self)@.contexts.insert(key@, value@),
                ..old(self)@
            }),
    {
        self.contexts.insert(key.to_owned(), value);
    }

    /// Removes the context `key`, if it is set.
    pub fn remove_context(&mut self, key: &str)
        ensures
            final(self)@ == (ScopeView {
                contexts: old(self)@.contexts.remove(key@),
                ..old(self)@
            }),
    {
        let _ = self.contexts.remove(key);
    }

    /// Sets the extra value `key` to `value`.
    pub fn set_extra(&mut self, key: &str, value: JsonValue)
        ensures
            final(self)@ == (ScopeView {
                extra: old(self)@.extra.insert(key@, value@),
                ..old(self)@
            }),
    {
        self.extra.insert(key.to_owned(), value);
    }

    /// Removes the extra value `key`, if it is set.
    pub fn remove_extra(&mut self, key: &str)
        ensures
            final(self)@ == (ScopeView { extra: old(self)@.extra.remove(key@), ..old(self)@ }),
    {
        let _ = self.extra.remove(key);
    }

    /// Adds a breadcrumb as the newest of the trail and keeps the newest
    /// `max_breadcrumbs` of it: where the trail was full, the oldest leaves.
    pub fn add_breadcrumb(&mut self, breadcrumb: Breadcrumb, max_breadcrumbs: usize)
        ensures
            final(self)@ == (ScopeView {
                breadcrumbs: keep_last(
                    old(self)@.breadcrumbs.push(breadcrumb@),
                    max_breadcrumbs as nat,
                ),
                ..old(self)@
            }),
    {
        let ghost start = self.breadcrumbs@;
        self.breadcrumbs.push(breadcrumb);
        assert(views(self.breadcrumbs@) =~= views(start).push(breadcrumb@));
        let n = self.breadcrumbs.len();
        if n > max_breadcrumbs {
            let kept = self.breadcrumbs.split_off(n - max_breadcrumbs);
            assert(views(kept@) =~= views(start.push(breadcrumb)).skip(n - max_breadcrumbs));
            self.breadcrumbs = kept;
        }
    }

    /// Lays a copy of `top` over this scope.
    pub fn overlay_from(&mut self, top: &Scope, max_breadcrumbs: usize)
        ensures
            final(self)@ == overlay(old(self)@, top@, max_breadcrumbs as nat),
    {
        if top.fingerprint.is_some() {
            self.fingerprint = replicate_texts(&top.fingerprint);
        }
        if top.user.is_some() {
            self.user = replicate_opt(&top.user);
        }
        self.tags.extend_from(&top.tags);
        self.extra.extend_from(&top.extra);
        self.contexts.extend_from(&top.contexts);
        append_capped(&mut self.breadcrumbs, &top.breadcrumbs, max_breadcrumbs);
    }

    /// Merges a copy of this scope into `event`.
    pub fn apply_to_event(&self, event: &mut Event, max_breadcrumbs: usize)
        ensures
            final(event)@ == event_with_scope(old(event)@, self@, max_breadcrumbs as nat),
    {
        if event.fingerprint.is_none() {
            event.fingerprint = replicate_texts(&self.fingerprint);
        }
        if event.user.is_none() {
            event.user = replicate_opt(&self.user);
        }
        event.tags.extend_from(&self.tags);
        event.extra.extend_from(&self.extra);
        event.contexts.extend_from(&self.contexts);
        append_capped(&mut event.breadcrumbs, &self.breadcrumbs, max_breadcrumbs);
    }
}

impl Clone for Scope {
    fn clone(&self) -> (r: Scope)
        ensures
            r@ == self@,
    {
        self.replicate()
    }
}

impl Replicate for Scope {
    fn replicate(&self) -> (r: Scope) {
        Scope {
            fingerprint: replicate_texts(&self.fingerprint),
            user: replicate_opt(&self.user),
            tags: self.tags.duplicate(),
            extra: self.extra.duplicate(),
            contexts: self.contexts.duplicate(),
            breadcrumbs: replicate_vec(&self.breadcrumbs),
        }
    }
}

/// The scope that a stack of frames amounts to: the frames laid over one
/// another from the bottom to the top.
pub open spec fn effective(frames: Seq<ScopeView>, cap: nat) -> ScopeView
    decreases frames.len(),
{
    if frames.len() == 0 {
        empty_scope()
    } else {
        overlay(effective(frames.drop_last(), cap), frames.last(), cap)
    }
}

/// The stack of scopes of one execution context. The bottom frame is always
/// there; every other frame was pushed and leaves when its guard is released.
#[derive(Debug)]
pub struct ScopeStack {
    base: Scope,
    pushed: Vec<Scope>,
}

impl View for ScopeStack {
    type V = Seq<ScopeView>;

    /// The frames from the bottom to the top.
    closed spec fn view(&self) -> Seq<ScopeView> {
        seq![self.base@] + views(self.pushed@)
    }
}

/// Token for one pushed frame; releasing it pops that frame.
#[derive(Debug)]
pub struct ScopeGuard {
    depth: usize,
}

impl ScopeGuard {
    /// The depth that the stack had right after the push that made the guard.
    pub closed spec fn depth(&self) -> nat {
        self.depth as nat
    }
}

/// Popping out of turn: the guard that was released does not belong to the
/// top frame of the stack.
#[derive(Clone, Copy, Debug, PartialEq, Eq, Structural)]
pub struct DisciplineViolation {
    /// The depth that the guard was made for.
    pub guard_depth: usize,
    /// The depth that the stack had when the guard was released.
    pub stack_depth: usize,
}

/// Whether releasing a guard made at depth `guard_depth` pops the top of
/// `frames`: the guard must belong to the top frame, and the bottom frame
/// never leaves.
pub open spec fn can_pop(frames: Seq<ScopeView>, guard_depth: nat) -> bool {
    frames.len() >= 2 && guard_depth + 1 == frames.len()
}

impl ScopeStack {
    /// A stack that has its bottom frame only, holding nothing.
    pub fn new() -> (r: ScopeStack)
        ensures
            r@ == seq![empty_scope()],
    {
        let r = ScopeStack { base: Scope::new(), pushed: Vec::new() };
        r
    }

    /// A stack always has its bottom frame.
    pub proof fn lemma_has_bottom(&self)
        ensures
            self@.len() >= 1,
    {
    }

    /// The number of pushed frames: 0 for a stack that has its bottom frame
    /// only.
    pub fn depth(&self) -> (n: usize)
        ensures
            n + 1 == self@.len(),
    {
        self.pushed.len()
    }

    /// Pushes a new frame that holds nothing. The guard that is returned pops
    /// exactly this frame when it is released.
    pub fn push(&mut self) -> (guard: ScopeGuard)
        ensures
            final(self)@ == old(self)@.push(empty_scope()),
            guard.depth() + 1 == final(self)@.len(),
    {
        self.pushed.push(Scope::new());
        ScopeGuard { depth: self.pushed.len() }
    }

    /// Releases a guard. Where the guard belongs to the top frame, that
    /// frame is popped. Otherwise the violation is reported and the stack is
    /// left as it was.
    pub fn pop(&mut self, guard: ScopeGuard) -> (r: Result<(), DisciplineViolation>)
        ensures
            r.is_ok() == can_pop(old(self)@, guard.depth()),
            r.is_ok() ==> final(self)@ == old(self)@.drop_last(),
            r matches Err(e) ==> final(self)@ == old(self)@ && e.guard_depth == guard.depth()
                && e.stack_depth + 1 == old(self)@.len(),
    {
        let n = self.pushed.len();
        if n >= 1 && guard.depth == n {
            let _ = self.pushed.pop();
            Ok(())
        } else {
            Err(DisciplineViolation { guard_depth: guard.depth, stack_depth: n })
        }
    }

    /// The scope that the stack amounts to: a copy of its frames laid over
    /// one another from the bottom to the top.
    pub fn effective_scope(&self, max_breadcrumbs: usize) -> (r: Scope)
        ensures
            r@ == effective(self@, max_breadcrumbs as nat),
    {
        let ghost cap = max_breadcrumbs as nat;
        let ghost frames = self@;
        let mut r = Scope::new();
        r.overlay_from(&self.base, max_breadcrumbs);
        proof {
            reveal_with_fuel(effective, 2);
        }
        let mut i: usize = 0;
        while i < self.pushed.len()
            invariant
                i <= self.pushed@.len(),
                frames == self@,
                cap == max_breadcrumbs as nat,
                r@ == effective(frames.take(i + 1), cap),
            decreases self.pushed@.len() - i,
        {
            proof {
                let next = frames.take(i + 2);
                assert(next.drop_last() =~= frames.take(i + 1));
            }
            r.overlay_from(&self.pushed[i], max_breadcrumbs);
            i += 1;
        }
        assert(frames.take(i + 1) =~= frames);
        r
    }

    /// The stack of a new execution context: its bottom frame is a copy of
    /// the top frame of this stack, and it has no other frame.
    pub fn fork(&self) -> (r: ScopeStack)
        ensures
            self@.len() >= 1,
            r@ == seq![self@.last()],
    {
        let r = ScopeStack { base: self.top().replicate(), pushed: Vec::new() };
        r
    }

    /// The top frame, for reading.
    pub fn top(&self) -> (r: &Scope)
        ensures
            self@.len() >= 1,
            r@ == self@.last(),
    {
        let n = self.pushed.len();
        if n == 0 {
            &self.base
        } else {
            &self.pushed[n - 1]
        }
    }

    /// The top frame, for changing it. No other frame changes.
    pub fn top_mut(&mut self) -> (r: &mut Scope)
        ensures
            old(self)@.len() >= 1,
            r@ == old(self)@.last(),
            final(self)@ == old(self)@.update(old(self)@.len() - 1, final(r)@),
    {
        let n = self.pushed.len();
        if n == 0 {
            &mut self.base
        } else {
            &mut self.pushed[n - 1]
        }
    }
}

/// Pushes a new scope on the stack. The guard that is returned pops exactly
/// this scope when it is released with `ScopeStack::pop`.
pub fn push_scope(stack: &mut ScopeStack) -> (guard: ScopeGuard)
    ensures
        final(stack)@ == old(stack)@.push(empty_scope()),
        guard.depth() + 1 == final(stack)@.len(),
{
    stack.push()
}

/// One step of work on a scope stack.
pub ghost enum StackOp {
    /// Push a frame; its guard becomes the innermost open guard.
    Push,
    /// Release the innermost open guard.
    Release,
    /// Replace the content of the top frame.
    Edit(ScopeView),
}

/// The frames and the open guards (innermost last) after one step.
pub open spec fn step(op: StackOp, frames: Seq<ScopeView>, guards: Seq<nat>) -> (
    Seq<ScopeView>,
    Seq<nat>,
) {
    match op {
        StackOp::Push => (frames.push(empty_scope()), guards.push(frames.len())),
        StackOp::Release => if guards.len() == 0 {
            (frames, guards)
        } else if can_pop(frames, guards.last()) {
            (frames.drop_last(), guards.drop_last())
        } else {
            (frames, guards.drop_last())
        },
        StackOp::Edit(scope) => (frames.update(frames.len() - 1, scope), guards),
    }
}

/// The frames and the open guards after a sequence of steps.
pub open spec fn run(ops: Seq<StackOp>, frames: Seq<ScopeView>, guards: Seq<nat>) -> (
    Seq<ScopeView>,
    Seq<nat>,
)
    decreases ops.len(),
{
    if ops.len() == 0 {
        (frames, guards)
    } else {
        let before = run(ops.drop_last(), frames, guards);
        step(ops.last(), before.0, before.1)
    }
}

/// The number of pushes less the number of releases.
pub open spec fn open_guards(ops: Seq<StackOp>) -> int
    decreases ops.len(),
{
    if ops.len() == 0 {
        0
    } else {
        open_guards(ops.drop_last()) + match ops.last() {
            StackOp::Push => 1int,
            StackOp::Release => -1int,
            StackOp::Edit(_) => 0int,
        }
    }
}

/// Guard discipline: a release always has an open guard of the sequence to
/// release, and at the end no guard is left open.
pub open spec fn disciplined(ops: Seq<StackOp>) -> bool {
    &&& forall|k: int| 0 <= k <= ops.len() ==> open_guards(#[trigger] ops.take(k)) >= 0
    &&& open_guards(ops) == 0
}

proof fn lemma_run_prefix(ops: Seq<StackOp>, frames: Seq<ScopeView>, k: int)
    requires
        frames.len() >= 1,
        0 <= k <= ops.len(),
        forall|j: int| 0 <= j <= ops.len() ==> open_guards(#[trigger] ops.take(j)) >= 0,
    ensures
        ({
            let after = run(ops.take(k), frames, Seq::empty());
            &&& after.0.len() == frames.len() + open_guards(ops.take(k))
            &&& after.1.len() == open_guards(ops.take(k))
            &&& forall|j: int| 0 <= j < after.1.len() ==> after.1[j] == frames.len() + j
            &&& after.0.take(frames.len() - 1) == frames.take(frames.len() - 1)
        }),
    decreases k,
{
    if k > 0 {
        lemma_run_prefix(ops, frames, k - 1);
        assert(ops.take(k).drop_last() =~= ops.take(k - 1));
    }
}

/// A sequence of pushes, releases and edits that keeps guard discipline
/// leaves the stack as deep as it found it, and leaves every frame below
/// the first top frame as it was.
pub proof fn lemma_discipline_restores_depth(ops: Seq<StackOp>, frames: Seq<ScopeView>)
    requires
        frames.len() >= 1,
        disciplined(ops),
    ensures
        run(ops, frames, Seq::empty()).0.len() == frames.len(),
        run(ops, frames, Seq::empty()).0.drop_last() == frames.drop_last(),
        run(ops, frames, Seq::empty()).1.len() == 0,
{
    lemma_run_prefix(ops, frames, ops.len() as int);
    assert(ops.take(ops.len() as int) =~= ops);
}

/// Last write wins: in the scope that a stack amounts to, an entry of the
/// top frame hides the entry that the frames below have for the same key, and
/// the other entries of the frames below show through. Once the top frame
/// has left, the frames below amount to what they did before.
pub proof fn lemma_top_frame_wins(
    frames: Seq<ScopeView>,
    top: ScopeView,
    cap: nat,
    key: Seq<char>,
)
    ensures
        ({
            let below = effective(frames, cap);
            let all = effective(frames.push(top), cap);
            &&& all.tags.contains_key(key) <==> top.tags.contains_key(key)
                || below.tags.contains_key(key)
            &&& top.tags.contains_key(key) ==> all.tags[key] == top.tags[key]
            &&& !top.tags.contains_key(key) && below.tags.contains_key(key) ==> all.tags[key]
                == below.tags[key]
            &&& all.extra.contains_key(key) <==> top.extra.contains_key(key)
                || below.extra.contains_key(key)
            &&& top.extra.contains_key(key) ==> all.extra[key] == top.extra[key]
            &&& !top.extra.contains_key(key) && below.extra.contains_key(key) ==> all.extra[key]
                == below.extra[key]
            &&& all.contexts.contains_key(key) <==> top.contexts.contains_key(key)
                || below.contexts.contains_key(key)
            &&& top.contexts.contains_key(key) ==> all.contexts[key] == top.contexts[key]
            &&& !top.contexts.contains_key(key) && below.contexts.contains_key(key)
                ==> all.contexts[key] == below.contexts[key]
        }),
        effective(frames.push(top).drop_last(), cap) == effective(frames, cap),
{
    assert(frames.push(top).drop_last() =~= frames);
}

/// The breadcrumb trail is bounded: the trail that is kept never has more
/// than `cap` items, and adding one to a full trail evicts exactly the
/// oldest.
pub proof fn lemma_trail_bounded<T>(trail: Seq<T>, item: T, cap: nat)
    ensures
        keep_last(trail.push(item), cap).len() <= cap,
        trail.len() < cap ==> keep_last(trail.push(item), cap) == trail.push(item),
        trail.len() == cap && cap > 0 ==> keep_last(trail.push(item), cap) == trail.skip(1).push(
            item,
        ),
{
}

/// The scope that a stack amounts to has at most `cap` breadcrumbs.
pub proof fn lemma_effective_trail_bounded(frames: Seq<ScopeView>, cap: nat)
    ensures
        effective(frames, cap).breadcrumbs.len() <= cap,
    decreases frames.len(),
{
    if frames.len() > 0 {
        lemma_effective_trail_bounded(frames.drop_last(), cap);
    }
}

} // verus!
