//! What becomes of a store in the course of an exchange.
//!
//! The laws of this module speak of a part of the store, such as the parents of its tasks, as a
//! value, and say in a spec function what each statement of the library makes of that value.
use crate::exchange::{ActionView, ReplyView, StepView};
use vstd::prelude::*;

verus! {

/// What was done to the store and to its files with the reply at `i`: what the handler asked for
/// there, where the reply tells that it was carried out.
pub open spec fn done_by<V>(
    handler: spec_fn(Seq<ReplyView>) -> Result<V, StepView>,
    replies: Seq<ReplyView>,
    i: int,
) -> Option<ActionView> {
    match handler(replies.take(i)) {
        Err(StepView::Ask(ActionView::Write(w))) => if replies[i] is Changed {
            Some(ActionView::Write(w))
        } else {
            None
        },
        Err(StepView::Ask(ActionView::Batch(s))) => if replies[i] is Done {
            Some(ActionView::Batch(s))
        } else {
            None
        },
        Err(StepView::Ask(ActionView::StoreAttachment(id, content))) => if replies[i] is Done {
            Some(ActionView::StoreAttachment(id, content))
        } else {
            None
        },
        Err(StepView::Ask(ActionView::RemoveAttachments(ids))) => if replies[i] is Done {
            Some(ActionView::RemoveAttachments(ids))
        } else {
            None
        },
        _ => None,
    }
}

/// What has become of `before` with the replies, where `effect` says what an action makes of it.
pub open spec fn became<V, S>(
    handler: spec_fn(Seq<ReplyView>) -> Result<V, StepView>,
    effect: spec_fn(S, ActionView) -> S,
    before: S,
    replies: Seq<ReplyView>,
) -> S
    decreases replies.len(),
{
    if replies.len() == 0 {
        before
    } else {
        let earlier = became(handler, effect, before, replies.drop_last());
        match done_by(handler, replies, replies.len() - 1) {
            Some(action) => effect(earlier, action),
            None => earlier,
        }
    }
}

/// Whether what was done with the reply at `i`, if anything, leaves every value as it is.
pub open spec fn is_quiet<V, S>(
    handler: spec_fn(Seq<ReplyView>) -> Result<V, StepView>,
    effect: spec_fn(S, ActionView) -> S,
    replies: Seq<ReplyView>,
    i: int,
) -> bool {
    match done_by(handler, replies, i) {
        Some(action) => forall|s: S| #[trigger] effect(s, action) == s,
        None => true,
    }
}

/// One more reply brings what was done with it.
pub proof fn lemma_step<V, S>(
    handler: spec_fn(Seq<ReplyView>) -> Result<V, StepView>,
    effect: spec_fn(S, ActionView) -> S,
    before: S,
    replies: Seq<ReplyView>,
    i: int,
)
    requires
        0 <= i < replies.len(),
    ensures
        became(handler, effect, before, replies.take(i + 1)) == (match done_by(
            handler,
            replies,
            i,
        ) {
            Some(action) => effect(became(handler, effect, before, replies.take(i)), action),
            None => became(handler, effect, before, replies.take(i)),
        }),
{
    let whole = replies.take(i + 1);
    assert(whole.drop_last() =~= replies.take(i));
    assert(whole.take(i) =~= replies.take(i));
}

/// Nothing becomes of a value while all is quiet.
pub proof fn lemma_quiet<V, S>(
    handler: spec_fn(Seq<ReplyView>) -> Result<V, StepView>,
    effect: spec_fn(S, ActionView) -> S,
    before: S,
    replies: Seq<ReplyView>,
    from: int,
    to: int,
)
    requires
        0 <= from <= to <= replies.len(),
        forall|i: int| from <= i < to ==> #[trigger] is_quiet(handler, effect, replies, i),
    ensures
        became(handler, effect, before, replies.take(to)) == became(
            handler,
            effect,
            before,
            replies.take(from),
        ),
    decreases to - from,
{
    if from < to {
        lemma_quiet(handler, effect, before, replies, from, to - 1);
        lemma_step(handler, effect, before, replies, to - 1);
        assert(is_quiet(handler, effect, replies, to - 1));
    }
}

/// What every action of a course keeps of a value is kept.
pub proof fn lemma_kept<V, S, T>(
    handler: spec_fn(Seq<ReplyView>) -> Result<V, StepView>,
    effect: spec_fn(S, ActionView) -> S,
    part: spec_fn(S) -> T,
    before: S,
    replies: Seq<ReplyView>,
    n: int,
)
    requires
        0 <= n <= replies.len(),
        forall|i: int, s: S|
            #![trigger done_by(handler, replies, i), part(s)]
            0 <= i < n && done_by(handler, replies, i) is Some ==> part(
                effect(s, done_by(handler, replies, i)->0),
            ) == part(s),
    ensures
        part(became(handler, effect, before, replies.take(n))) == part(before),
    decreases n,
{
    if n > 0 {
        lemma_kept(handler, effect, part, before, replies, n - 1);
        lemma_step(handler, effect, before, replies, n - 1);
        let earlier = became(handler, effect, before, replies.take(n - 1));
        assert(part(earlier) == part(before));
    }
}

/// What becomes of a part of a value, where every action makes of the part what it makes of the part
/// alone.
pub proof fn lemma_part<V, S, T>(
    handler: spec_fn(Seq<ReplyView>) -> Result<V, StepView>,
    effect: spec_fn(S, ActionView) -> S,
    part: spec_fn(S) -> T,
    part_effect: spec_fn(T, ActionView) -> T,
    before: S,
    replies: Seq<ReplyView>,
    n: int,
)
    requires
        0 <= n <= replies.len(),
        forall|i: int, s: S|
            #![trigger done_by(handler, replies, i), part(s)]
            0 <= i < n && done_by(handler, replies, i) is Some ==> part(
                effect(s, done_by(handler, replies, i)->0),
            ) == part_effect(part(s), done_by(handler, replies, i)->0),
    ensures
        part(became(handler, effect, before, replies.take(n))) == became(
            handler,
            part_effect,
            part(before),
            replies.take(n),
        ),
    decreases n,
{
    if n > 0 {
        lemma_part(handler, effect, part, part_effect, before, replies, n - 1);
        lemma_step(handler, effect, before, replies, n - 1);
        lemma_step(handler, part_effect, part(before), replies, n - 1);
        let earlier = became(handler, effect, before, replies.take(n - 1));
        assert(part(earlier) == became(handler, part_effect, part(before), replies.take(n - 1)));
    }
}

/// Nothing becomes of a value before the first reply.
pub proof fn lemma_start<V, S>(
    handler: spec_fn(Seq<ReplyView>) -> Result<V, StepView>,
    effect: spec_fn(S, ActionView) -> S,
    before: S,
    replies: Seq<ReplyView>,
)
    ensures
        became(handler, effect, before, replies.take(0)) == before,
        replies.take(replies.len() as int) == replies,
{
    assert(replies.take(replies.len() as int) =~= replies);
}

/// Whether a handler has come to an end: it asks for nothing more.
pub open spec fn has_ended<V>(result: Result<V, StepView>) -> bool {
    match result {
        Err(StepView::Ask(_)) => false,
        _ => true,
    }
}

/// Whether the reply at `i` is one that the store can give to what is asked for there: `tells` says
/// which replies those are for the value that has become of `before` by then.
pub open spec fn is_told<V, S>(
    handler: spec_fn(Seq<ReplyView>) -> Result<V, StepView>,
    effect: spec_fn(S, ActionView) -> S,
    tells: spec_fn(S, ActionView, ReplyView) -> bool,
    before: S,
    replies: Seq<ReplyView>,
    i: int,
) -> bool {
    match handler(replies.take(i)) {
        Err(StepView::Ask(action)) => tells(
            became(handler, effect, before, replies.take(i)),
            action,
            replies[i],
        ),
        _ => true,
    }
}

/// Whether replies are those of a store, from `before` on: each is one that it can give, and behind
/// the last the handler has come to an end.
pub open spec fn is_course<V, S>(
    handler: spec_fn(Seq<ReplyView>) -> Result<V, StepView>,
    effect: spec_fn(S, ActionView) -> S,
    tells: spec_fn(S, ActionView, ReplyView) -> bool,
    before: S,
    replies: Seq<ReplyView>,
) -> bool {
    &&& has_ended(handler(replies))
    &&& forall|i: int|
        0 <= i < replies.len() ==> #[trigger] is_told(handler, effect, tells, before, replies, i)
}

/// Where a handler asks, there is a reply, and the store can give it.
pub proof fn lemma_told<V, S>(
    handler: spec_fn(Seq<ReplyView>) -> Result<V, StepView>,
    effect: spec_fn(S, ActionView) -> S,
    tells: spec_fn(S, ActionView, ReplyView) -> bool,
    before: S,
    replies: Seq<ReplyView>,
    i: int,
)
    requires
        is_course(handler, effect, tells, before, replies),
        0 <= i <= replies.len(),
        !has_ended(handler(replies.take(i))),
    ensures
        i < replies.len(),
        handler(replies.take(i)) is Err,
        (handler(replies.take(i))->Err_0) is Ask,
        tells(
            became(handler, effect, before, replies.take(i)),
            (handler(replies.take(i))->Err_0)->Ask_0,
            replies[i],
        ),
{
    if i == replies.len() {
        assert(replies.take(i) =~= replies);
    } else {
        assert(is_told(handler, effect, tells, before, replies, i));
    }
}

/// A course of replies is one of a part of the value too, where every action makes of the part what
/// it makes of the part alone, and every reply tells of the part what it tells of the whole.
pub proof fn lemma_course_of_a_part<V, S, T>(
    handler: spec_fn(Seq<ReplyView>) -> Result<V, StepView>,
    effect: spec_fn(S, ActionView) -> S,
    tells: spec_fn(S, ActionView, ReplyView) -> bool,
    part: spec_fn(S) -> T,
    part_effect: spec_fn(T, ActionView) -> T,
    part_tells: spec_fn(T, ActionView, ReplyView) -> bool,
    before: S,
    replies: Seq<ReplyView>,
)
    requires
        is_course(handler, effect, tells, before, replies),
        forall|s: S, action: ActionView|
            #![trigger effect(s, action)]
            part(effect(s, action)) == part_effect(part(s), action),
        forall|s: S, action: ActionView, reply: ReplyView|
            #![trigger tells(s, action, reply)]
            tells(s, action, reply) ==> part_tells(part(s), action, reply),
    ensures
        is_course(handler, part_effect, part_tells, part(before), replies),
        forall|n: int|
            0 <= n <= replies.len() ==> part(
                #[trigger] became(handler, effect, before, replies.take(n)),
            ) == became(handler, part_effect, part(before), replies.take(n)),
{
    assert forall|n: int| 0 <= n <= replies.len() implies part(
        #[trigger] became(handler, effect, before, replies.take(n)),
    ) == became(handler, part_effect, part(before), replies.take(n)) by {
        assert forall|i: int, s: S|
            #![trigger done_by(handler, replies, i), part(s)]
            0 <= i < n && done_by(handler, replies, i) is Some implies part(
            effect(s, done_by(handler, replies, i)->0),
        ) == part_effect(part(s), done_by(handler, replies, i)->0) by {
            let changed = effect(s, done_by(handler, replies, i)->0);
        }
        lemma_part(handler, effect, part, part_effect, before, replies, n);
    }
    assert forall|i: int| 0 <= i < replies.len() implies #[trigger] is_told(
        handler,
        part_effect,
        part_tells,
        part(before),
        replies,
        i,
    ) by {
        assert(is_told(handler, effect, tells, before, replies, i));
        let whole = became(handler, effect, before, replies.take(i));
        assert(part(whole) == became(handler, part_effect, part(before), replies.take(i)));
    }
}

} // verus!
