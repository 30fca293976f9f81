//! What holds of the passing of time: what is repeated, and what is forgotten.
use vstd::prelude::*;
use crate::dialog;
use crate::media;
use crate::model;
use crate::model::EntityModel;
use crate::station;
use crate::tables::SECOND;
use crate::text::Text;

verus! {

/// A REGISTER is not repeated within a minute.
pub proof fn law_register_waits(s: EntityModel, now: u64, cnonce: Text, later: u64)
    requires
        later < now + 60 * SECOND,
    ensures
        s.config.register ==> !model::register_due(
            model::register_step(s, now, cnonce).state,
            later,
        ),
{
}

/// A bridge that is not to register never sends a REGISTER.
pub proof fn law_registration_can_be_off(
    s: EntityModel,
    now: u64,
    order: Seq<u128>,
    cnonce: Text,
    id: u128,
)
    requires
        !s.config.register,
    ensures
        model::register_step(s, now, cnonce).actions.len() == 0,
        ({
            let t = model::periodic_step(s, now, order, cnonce, id).state;
            t.register_cseq == s.register_cseq && t.last_register == s.last_register
        }),
{
    station::lemma_drop_all_frame(s, order);
}

/// An OPTIONS is not repeated within the configured time, nor within five seconds.
pub proof fn law_options_wait(s: EntityModel, now: u64, id: u128, later: u64)
    requires
        later < now + s.config.options_interval_secs * SECOND || later < now + 5 * SECOND,
    ensures
        !model::options_due(model::options_step(s, now, id).state, later),
{
    let secs = model::options_interval(s.config);
    assert(later < now + secs * SECOND) by (nonlinear_arith)
        requires
            later < now + s.config.options_interval_secs * SECOND || later < now + 5 * SECOND,
            secs >= s.config.options_interval_secs,
            secs >= 5,
            SECOND == 1_000_000_000u64,
    ;
}

/// Whether one of the dialogs in `order` holds a timeslot.
pub open spec fn frees(s: EntityModel, order: Seq<u128>, slot: (u16, u8)) -> bool {
    exists|i: int|
        0 <= i < order.len() && s.dialogs.contains_key(#[trigger] order[i]) && (
        s.dialogs[order[i]].media_ready matches Some((_, carrier_num, ts)) && (carrier_num, ts)
            == slot)
}

/// Forgetting several dialogs removes them and gives back their timeslots, and nothing else.
pub proof fn law_forgetting_several(s: EntityModel, order: Seq<u128>)
    requires
        order.no_duplicates(),
    ensures
        ({
            let t = model::drop_all(s, order).state;
            &&& t == (EntityModel { dialogs: t.dialogs, rtp_by_ts: t.rtp_by_ts, ..s })
            &&& t.dialogs == s.dialogs.remove_keys(order.to_set())
            &&& forall|slot: (u16, u8)|
                #![trigger t.rtp_by_ts.contains_key(slot)]
                t.rtp_by_ts.contains_key(slot) <==> s.rtp_by_ts.contains_key(slot) && !frees(
                    s,
                    order,
                    slot,
                )
            &&& forall|slot: (u16, u8)|
                #![trigger t.rtp_by_ts[slot]]
                t.rtp_by_ts.contains_key(slot) ==> t.rtp_by_ts[slot] == s.rtp_by_ts[slot]
        }),
    decreases order.len(),
{
    station::lemma_drop_all_frame(s, order);
    let t = model::drop_all(s, order).state;
    if order.len() == 0 {
        assert(order.to_set() =~= Set::empty());
        assert(t.dialogs =~= s.dialogs.remove_keys(order.to_set()));
    } else {
        let most = order.drop_last();
        let u = order.last();
        law_forgetting_several(s, most);
        let a = model::drop_all(s, most).state;
        assert(!most.contains(u)) by {
            if most.contains(u) {
                let i = choose|i: int| 0 <= i < most.len() && most[i] == u;
                assert(order[i] == order[order.len() - 1]);
            }
        }
        assert(order =~= most.push(u));
        assert forall|v: u128| order.to_set().contains(v) == (most.to_set().contains(v) || v
            == u) by {
            if most.contains(v) {
                let i = choose|i: int| 0 <= i < most.len() && most[i] == v;
                assert(order[i] == v);
            }
            if v == u {
                assert(order[order.len() - 1] == v);
            }
        }
        assert(t.dialogs =~= s.dialogs.remove_keys(order.to_set()));
        assert(a.dialogs.contains_key(u) == s.dialogs.contains_key(u));
        assert forall|slot: (u16, u8)|
            #![trigger t.rtp_by_ts.contains_key(slot)]
            t.rtp_by_ts.contains_key(slot) <==> s.rtp_by_ts.contains_key(slot) && !frees(
                s,
                order,
                slot,
            ) by {
            if frees(s, most, slot) {
                let i = choose|i: int|
                    0 <= i < most.len() && s.dialogs.contains_key(#[trigger] most[i]) && (
                    s.dialogs[most[i]].media_ready matches Some((_, carrier_num, ts)) && (
                        carrier_num,
                        ts,
                    ) == slot);
                assert(order[i] == most[i]);
            }
            if frees(s, order, slot) && !frees(s, most, slot) {
                let i = choose|i: int|
                    0 <= i < order.len() && s.dialogs.contains_key(#[trigger] order[i]) && (
                    s.dialogs[order[i]].media_ready matches Some((_, carrier_num, ts)) && (
                        carrier_num,
                        ts,
                    ) == slot);
                if i < most.len() {
                    assert(most[i] == order[i]);
                }
            }
            assert(order[order.len() - 1] == u);
            assert(t.rtp_by_ts.contains_key(slot) <==> a.rtp_by_ts.contains_key(slot) && !(
            s.dialogs.contains_key(u) && (s.dialogs[u].media_ready matches Some(
                (_, carrier_num, ts),
            ) && (carrier_num, ts) == slot)));
        }
    }
}

/// The order in which cancelled calls are forgotten makes no difference to what is left.
pub proof fn law_order_is_immaterial(s: EntityModel, a: Seq<u128>, b: Seq<u128>, set: Set<u128>)
    requires
        model::lists(a, set),
        model::lists(b, set),
    ensures
        model::drop_all(s, a).state == model::drop_all(s, b).state,
{
    law_forgetting_several(s, a);
    law_forgetting_several(s, b);
    let x = model::drop_all(s, a).state;
    let y = model::drop_all(s, b).state;
    assert forall|slot: (u16, u8)| frees(s, a, slot) == frees(s, b, slot) by {
        if frees(s, a, slot) {
            lemma_frees(s, a, b, slot);
        }
        if frees(s, b, slot) {
            lemma_frees(s, b, a, slot);
        }
    }
    assert(x.rtp_by_ts =~= y.rtp_by_ts);
}

proof fn lemma_frees(s: EntityModel, a: Seq<u128>, b: Seq<u128>, slot: (u16, u8))
    requires
        a.to_set() == b.to_set(),
        frees(s, a, slot),
    ensures
        frees(s, b, slot),
{
    let i = choose|i: int|
        0 <= i < a.len() && s.dialogs.contains_key(#[trigger] a[i]) && (
        s.dialogs[a[i]].media_ready matches Some((_, carrier_num, ts)) && (carrier_num, ts)
            == slot);
    assert(a.to_set().contains(a[i]));
    assert(b.contains(a[i]));
    let j = choose|j: int| 0 <= j < b.len() && b[j] == a[i];
    assert(s.dialogs.contains_key(b[j]));
}

/// Once time has been looked at, no call is left that was cancelled too long ago, and every
/// other call is left as it was.
pub proof fn law_cancelled_calls_are_reaped(
    s: EntityModel,
    now: u64,
    order: Seq<u128>,
    cnonce: Text,
    id: u128,
    u: u128,
)
    requires
        model::lists(order, model::reapable(s, now)),
    ensures
        ({
            let t = model::periodic_step(s, now, order, cnonce, id).state;
            &&& t.dialogs.contains_key(u) <==> s.dialogs.contains_key(u) && !dialog::overdue(
                s.dialogs[u],
                now,
                media::CANCEL_REAP_AFTER,
            )
            &&& t.dialogs.contains_key(u) ==> t.dialogs[u] == s.dialogs[u]
        }),
{
    law_forgetting_several(s, order);
    let t = model::periodic_step(s, now, order, cnonce, id).state;
    assert(t.dialogs == model::drop_all(s, order).state.dialogs);
    assert(order.to_set().contains(u) == model::reapable(s, now).contains(u));
}

/// A call that is cancelled is kept for as long as its final response may take.
pub proof fn law_cancelled_calls_are_kept_meanwhile(
    s: EntityModel,
    uuid: u128,
    released: u64,
    now: u64,
)
    requires
        s.dialogs.contains_key(uuid),
        s.dialogs[uuid].released_at == Some(released),
        now < released + media::CANCEL_REAP_AFTER,
    ensures
        !model::reapable(s, now).contains(uuid),
{
}

} // verus!
