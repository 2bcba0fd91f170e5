//! What holds of the ledger's operations, whatever the ledger holds.
//!
//! Each law is stated over the model that the operations' contracts use.

use crate::ident::{id_text, lemma_id_text_injective};
use crate::model::{
    is_first_of_kind, is_first_with_id, lemma_first_of_kind, lemma_first_with_id, lemma_no_id,
    lemma_position_of_kind, lemma_same_ids_same_position, new_intent, new_invoice,
    position_of_id, position_of_kind, StateView,
};
use crate::types::{IntentStatus, IntentView, InvoiceView, ProviderConfigView, ProviderView};
use vstd::prelude::*;

verus! {

/// A lookup by id finds an intent exactly where some intent holds the id,
/// and the intent found holds it.
pub proof fn has_intent_iff_found(s: StateView, id: Seq<char>)
    ensures
        s.has_intent(id) <==> s.get_intent(id) is Some,
        s.get_intent(id) is Some ==> s.get_intent(id).unwrap().id == id,
{
    lemma_no_id(s.intents, id);
}

/// Looking an intent up right after creating it gives the intent that the
/// creation returned, provided no earlier intent holds the same id (an
/// earlier one with that id would be found first).
pub proof fn get_after_create(
    s: StateView,
    now: u64,
    amount_minor: u64,
    currency: Seq<char>,
    description: Option<Seq<char>>,
    provider: ProviderView,
)
    requires
        !s.has_intent(new_intent(now, amount_minor, currency, description, provider).id),
    ensures
        ({
            let created = new_intent(now, amount_minor, currency, description, provider);
            s.with_intent(created).get_intent(created.id) == Some(created)
        }),
{
    let created = new_intent(now, amount_minor, currency, description, provider);
    let t = s.with_intent(created);
    let k = s.intents.len() as int;
    assert(is_first_with_id(t.intents, created.id, k)) by {
        assert forall|j: int| 0 <= j < k implies (#[trigger] t.intents[j]).id != created.id by {
            assert(t.intents[j] == s.intents[j]);
        }
    }
    lemma_first_with_id(t.intents, created.id, k);
}

/// An intent that was there before a creation is still found by its id
/// afterwards, unchanged.
pub proof fn create_keeps_earlier_intents(s: StateView, created: IntentView, id: Seq<char>)
    requires
        s.has_intent(id),
    ensures
        s.with_intent(created).get_intent(id) == s.get_intent(id),
{
    lemma_no_id(s.intents, id);
    let k = position_of_id(s.intents, id).unwrap();
    let t = s.with_intent(created);
    assert(is_first_with_id(t.intents, id, k)) by {
        assert(t.intents[k] == s.intents[k]);
        assert forall|j: int| 0 <= j < k implies (#[trigger] t.intents[j]).id != id by {
            assert(t.intents[j] == s.intents[j]);
        }
    }
    lemma_first_with_id(t.intents, id, k);
}

/// What a caller passes to create one intent, with the time of the call.
pub struct IntentRequest {
    pub now: u64,
    pub amount_minor: u64,
    pub currency: Seq<char>,
    pub description: Option<Seq<char>>,
    pub provider: ProviderView,
}

impl IntentRequest {
    /// The intent that this request creates.
    pub open spec fn intent(self) -> IntentView {
        new_intent(self.now, self.amount_minor, self.currency, self.description, self.provider)
    }
}

/// What a caller passes to create one invoice, with the time of the call.
pub struct InvoiceRequest {
    pub now: u64,
    pub amount_minor: u64,
    pub currency: Seq<char>,
    pub email_enc: Option<Seq<char>>,
    pub description: Option<Seq<char>>,
}

impl InvoiceRequest {
    /// The invoice that this request creates.
    pub open spec fn invoice(self) -> InvoiceView {
        new_invoice(self.now, self.amount_minor, self.currency, self.email_enc, self.description)
    }
}

/// The ledger after the intents of `requests` were created one after the
/// other.
pub open spec fn create_intents(s: StateView, requests: Seq<IntentRequest>) -> StateView
    decreases requests.len(),
{
    if requests.len() == 0 {
        s
    } else {
        create_intents(s, requests.drop_last()).with_intent(requests.last().intent())
    }
}

/// The ledger after the invoices of `requests` were created one after the
/// other.
pub open spec fn create_invoices(s: StateView, requests: Seq<InvoiceRequest>) -> StateView
    decreases requests.len(),
{
    if requests.len() == 0 {
        s
    } else {
        create_invoices(s, requests.drop_last()).with_invoice(requests.last().invoice())
    }
}

/// After any number of creations the ledger lists the intents it had,
/// then one intent per creation, in the order of the creations; invoices
/// and configurations are as they were.
pub proof fn intents_in_creation_order(s: StateView, requests: Seq<IntentRequest>)
    ensures
        create_intents(s, requests).intents == s.intents + requests.map_values(
            |r: IntentRequest| r.intent(),
        ),
        create_intents(s, requests).intents.len() == s.intents.len() + requests.len(),
        create_intents(s, requests).invoices == s.invoices,
        create_intents(s, requests).configs == s.configs,
    decreases requests.len(),
{
    let made = requests.map_values(|r: IntentRequest| r.intent());
    if requests.len() == 0 {
        assert(s.intents + made =~= s.intents);
    } else {
        let earlier = requests.drop_last();
        intents_in_creation_order(s, earlier);
        assert(s.intents + made =~= (s.intents + earlier.map_values(
            |r: IntentRequest| r.intent(),
        )).push(requests.last().intent()));
    }
}

/// After any number of creations the ledger lists the invoices it had,
/// then one invoice per creation, in the order of the creations; intents
/// and configurations are as they were.
pub proof fn invoices_in_creation_order(s: StateView, requests: Seq<InvoiceRequest>)
    ensures
        create_invoices(s, requests).invoices == s.invoices + requests.map_values(
            |r: InvoiceRequest| r.invoice(),
        ),
        create_invoices(s, requests).invoices.len() == s.invoices.len() + requests.len(),
        create_invoices(s, requests).intents == s.intents,
        create_invoices(s, requests).configs == s.configs,
    decreases requests.len(),
{
    let made = requests.map_values(|r: InvoiceRequest| r.invoice());
    if requests.len() == 0 {
        assert(s.invoices + made =~= s.invoices);
    } else {
        let earlier = requests.drop_last();
        invoices_in_creation_order(s, earlier);
        assert(s.invoices + made =~= (s.invoices + earlier.map_values(
            |r: InvoiceRequest| r.invoice(),
        )).push(requests.last().invoice()));
    }
}

/// Marking an id paid: where an intent holds the id, the first such intent
/// is then succeeded and carries the given receipt, its other fields as
/// before; where none does, the ledger is unchanged. The number of intents
/// never changes, nor do invoices and configurations.
pub proof fn mark_paid_effect(s: StateView, id: Seq<char>, receipt_hash: Option<Seq<char>>)
    ensures
        ({
            let t = s.mark_paid(id, receipt_hash);
            &&& t.intents.len() == s.intents.len()
            &&& t.invoices == s.invoices
            &&& t.configs == s.configs
            &&& !s.has_intent(id) ==> t == s && t.get_intent(id) is None
            &&& s.has_intent(id) ==> {
                &&& t.get_intent(id) is Some
                &&& s.get_intent(id) is Some
                &&& t.get_intent(id).unwrap() == (IntentView {
                    status: IntentStatus::Succeeded,
                    receipt_hash,
                    ..s.get_intent(id).unwrap()
                })
            }
        }),
{
    lemma_no_id(s.intents, id);
    let t = s.mark_paid(id, receipt_hash);
    if s.has_intent(id) {
        lemma_same_ids_same_position(s.intents, t.intents, id);
    }
}

/// Refunding an id: where an intent holds the id, the first such intent is
/// then refunded, its other fields (the receipt among them) as before;
/// where none does, the ledger is unchanged.
pub proof fn refund_effect(s: StateView, id: Seq<char>)
    ensures
        ({
            let t = s.refund_intent(id);
            &&& t.intents.len() == s.intents.len()
            &&& t.invoices == s.invoices
            &&& t.configs == s.configs
            &&& !s.has_intent(id) ==> t == s && t.get_intent(id) is None
            &&& s.has_intent(id) ==> {
                &&& t.get_intent(id) is Some
                &&& s.get_intent(id) is Some
                &&& t.get_intent(id).unwrap() == (IntentView {
                    status: IntentStatus::Refunded,
                    ..s.get_intent(id).unwrap()
                })
            }
        }),
{
    lemma_no_id(s.intents, id);
    let t = s.refund_intent(id);
    if s.has_intent(id) {
        lemma_same_ids_same_position(s.intents, t.intents, id);
    }
}

/// Refunding twice is refunding once: the second refund changes nothing,
/// and the intent is refunded after each.
pub proof fn refund_is_idempotent(s: StateView, id: Seq<char>)
    ensures
        s.refund_intent(id).refund_intent(id) == s.refund_intent(id),
        s.has_intent(id) ==> {
            &&& s.refund_intent(id).get_intent(id) is Some
            &&& s.refund_intent(id).get_intent(id).unwrap().status == IntentStatus::Refunded
            &&& s.refund_intent(id).refund_intent(id).get_intent(id).unwrap().status
                == IntentStatus::Refunded
        },
{
    lemma_no_id(s.intents, id);
    let t = s.refund_intent(id);
    refund_effect(s, id);
    if s.has_intent(id) {
        lemma_same_ids_same_position(s.intents, t.intents, id);
        assert(t.refund_intent(id).intents =~= t.intents);
    }
}

/// Marking paid and refunding leave every intent at its position with its
/// id and its time of creation, and bring no intent back to `Processing`.
pub proof fn transitions_keep_identity(
    s: StateView,
    id: Seq<char>,
    receipt_hash: Option<Seq<char>>,
    k: int,
)
    requires
        0 <= k < s.intents.len(),
    ensures
        s.mark_paid(id, receipt_hash).intents[k].id == s.intents[k].id,
        s.mark_paid(id, receipt_hash).intents[k].created_at == s.intents[k].created_at,
        s.mark_paid(id, receipt_hash).intents[k].status == IntentStatus::Processing
            ==> s.intents[k].status == IntentStatus::Processing,
        s.refund_intent(id).intents[k].id == s.intents[k].id,
        s.refund_intent(id).intents[k].created_at == s.intents[k].created_at,
        s.refund_intent(id).intents[k].status == IntentStatus::Processing ==> s.intents[k].status
            == IntentStatus::Processing,
{
    lemma_no_id(s.intents, id);
}

/// Setting a configuration keeps the ledger at one configuration per
/// provider category.
pub proof fn set_provider_config_keeps_wf(s: StateView, cfg: ProviderConfigView)
    requires
        s.wf(),
    ensures
        s.set_provider_config(cfg).wf(),
{
    lemma_position_of_kind(s.configs, cfg.provider.kind());
    let t = s.set_provider_config(cfg);
    assert forall|i: int, j: int| 0 <= i < j < t.configs.len() implies (
    #[trigger] t.configs[i]).provider.kind() != (#[trigger] t.configs[j]).provider.kind() by {
        match position_of_kind(s.configs, cfg.provider.kind()) {
            Some(k) => {
                if i != k && j != k {
                    assert(s.configs[i].provider.kind() != s.configs[j].provider.kind());
                } else if i == k {
                    assert(s.configs[k].provider.kind() != s.configs[j].provider.kind());
                } else {
                    assert(s.configs[i].provider.kind() != s.configs[k].provider.kind());
                }
            },
            None => {
                if j < s.configs.len() {
                    assert(s.configs[i].provider.kind() != s.configs[j].provider.kind());
                } else {
                    assert(s.configs[i].provider.kind() != cfg.provider.kind());
                }
            },
        }
    }
}

/// After a configuration was set, the ledger holds it, at the one position
/// of its category; every other position is as it was.
pub proof fn set_provider_config_effect(s: StateView, cfg: ProviderConfigView)
    requires
        s.wf(),
    ensures
        ({
            let t = s.set_provider_config(cfg);
            let kind = cfg.provider.kind();
            &&& t.intents == s.intents
            &&& t.invoices == s.invoices
            &&& position_of_kind(t.configs, kind) is Some
            &&& t.configs[position_of_kind(t.configs, kind).unwrap()] == cfg
            &&& forall|j: int|
                0 <= j < t.configs.len() && j != position_of_kind(t.configs, kind).unwrap() ==> (
                #[trigger] t.configs[j]).provider.kind() != kind && j < s.configs.len()
                    && t.configs[j] == s.configs[j]
            &&& position_of_kind(s.configs, kind) is Some ==> t.configs.len() == s.configs.len()
                && position_of_kind(t.configs, kind) == position_of_kind(s.configs, kind)
            &&& position_of_kind(s.configs, kind) is None ==> t.configs.len() == s.configs.len()
                + 1 && position_of_kind(t.configs, kind) == Some(s.configs.len() as int)
        }),
{
    let kind = cfg.provider.kind();
    let t = s.set_provider_config(cfg);
    lemma_position_of_kind(s.configs, kind);
    set_provider_config_keeps_wf(s, cfg);
    let k = match position_of_kind(s.configs, kind) {
        Some(k) => k,
        None => s.configs.len() as int,
    };
    assert(is_first_of_kind(t.configs, kind, k)) by {
        assert(t.configs[k] == cfg);
        assert forall|j: int| 0 <= j < k implies (#[trigger] t.configs[j]).provider.kind()
            != kind by {
            assert(t.configs[j] == s.configs[j]);
        }
    }
    lemma_first_of_kind(t.configs, kind, k);
    assert forall|j: int| 0 <= j < t.configs.len() && j != k implies (
    #[trigger] t.configs[j]).provider.kind() != kind && j < s.configs.len() && t.configs[j]
        == s.configs[j] by {
        if j < k {
            assert(t.configs[j].provider.kind() != t.configs[k].provider.kind());
        } else {
            assert(t.configs[k].provider.kind() != t.configs[j].provider.kind());
        }
    }
}

/// Setting two configurations of one provider category, one after the
/// other, leaves exactly one configuration of that category, and it is the
/// second; the second call adds no entry. Two `Custom` providers are of one
/// category whatever text they carry.
pub proof fn second_config_replaces_first(
    s: StateView,
    first: ProviderConfigView,
    second: ProviderConfigView,
)
    requires
        s.wf(),
        first.provider.kind() == second.provider.kind(),
    ensures
        ({
            let once = s.set_provider_config(first);
            let twice = once.set_provider_config(second);
            let kind = second.provider.kind();
            &&& twice.wf()
            &&& twice.configs.len() == once.configs.len()
            &&& twice == s.set_provider_config(second)
            &&& position_of_kind(twice.configs, kind) is Some
            &&& twice.configs[position_of_kind(twice.configs, kind).unwrap()] == second
            &&& forall|j: int|
                0 <= j < twice.configs.len() && (#[trigger] twice.configs[j]).provider.kind()
                    == kind ==> j == position_of_kind(twice.configs, kind).unwrap()
        }),
{
    let once = s.set_provider_config(first);
    let twice = once.set_provider_config(second);
    set_provider_config_effect(s, first);
    set_provider_config_effect(once, second);
    set_provider_config_effect(s, second);
    set_provider_config_keeps_wf(s, first);
    lemma_position_of_kind(s.configs, second.provider.kind());
    assert(twice.configs =~= s.set_provider_config(second).configs);
}

/// With a clock that never gives the same time twice, creation never
/// reuses an id: where every intent holds the id made from its time of
/// creation and all were created before `now`, no intent holds the id of
/// the intent created at `now`.
pub proof fn fresh_time_gives_fresh_id(s: StateView, now: u64)
    requires
        s.ids_stamped(),
        s.created_before(now),
    ensures
        !s.has_intent(id_text("int"@, now)),
{
    if s.has_intent(id_text("int"@, now)) {
        let k = choose|k: int|
            0 <= k < s.intents.len() && (#[trigger] s.intents[k]).id == id_text("int"@, now);
        assert(s.intents[k].created_at < now);
        lemma_id_text_injective("int"@, s.intents[k].created_at, now);
    }
}

/// Creation at a later time than every earlier creation keeps the ledger
/// one whose intents hold the ids of their times of creation, all
/// different, and the new intent is found by its id.
pub proof fn create_keeps_ids_apart(
    s: StateView,
    now: u64,
    amount_minor: u64,
    currency: Seq<char>,
    description: Option<Seq<char>>,
    provider: ProviderView,
)
    requires
        s.ids_stamped(),
        s.ids_distinct(),
        s.created_before(now),
    ensures
        ({
            let created = new_intent(now, amount_minor, currency, description, provider);
            let t = s.with_intent(created);
            &&& t.ids_stamped()
            &&& t.ids_distinct()
            &&& now < u64::MAX ==> t.created_before((now + 1) as u64)
            &&& t.get_intent(created.id) == Some(created)
        }),
{
    let created = new_intent(now, amount_minor, currency, description, provider);
    let t = s.with_intent(created);
    fresh_time_gives_fresh_id(s, now);
    get_after_create(s, now, amount_minor, currency, description, provider);
    assert forall|k: int| 0 <= k < t.intents.len() implies (#[trigger] t.intents[k]).id
        == id_text("int"@, t.intents[k].created_at) by {
        if k < s.intents.len() {
            assert(t.intents[k] == s.intents[k]);
        }
    }
    assert forall|i: int, j: int| 0 <= i < j < t.intents.len() implies (#[trigger] t.intents[i]).id
        != (#[trigger] t.intents[j]).id by {
        assert(t.intents[i] == s.intents[i]);
        if j < s.intents.len() {
            assert(t.intents[j] == s.intents[j]);
        }
    }
    if now < u64::MAX {
        assert forall|k: int| 0 <= k < t.intents.len() implies (#[trigger] t.intents[k]).created_at
            < (now + 1) as u64 by {
            if k < s.intents.len() {
                assert(t.intents[k] == s.intents[k]);
            }
        }
    }
}

/// Marking paid and refunding keep the ids of the ledger as they are:
/// still made from the times of creation where they were, still all
/// different where they were.
pub proof fn transitions_keep_ids(s: StateView, id: Seq<char>, receipt_hash: Option<Seq<char>>)
    ensures
        s.ids_stamped() ==> s.mark_paid(id, receipt_hash).ids_stamped() && s.refund_intent(
            id,
        ).ids_stamped(),
        s.ids_distinct() ==> s.mark_paid(id, receipt_hash).ids_distinct() && s.refund_intent(
            id,
        ).ids_distinct(),
        forall|now: u64|
            s.created_before(now) ==> s.mark_paid(id, receipt_hash).created_before(now)
                && s.refund_intent(id).created_before(now),
{
    lemma_no_id(s.intents, id);
    let p = s.mark_paid(id, receipt_hash);
    let r = s.refund_intent(id);
    assert forall|k: int| 0 <= k < s.intents.len() implies (#[trigger] p.intents[k]).id
        == s.intents[k].id && p.intents[k].created_at == s.intents[k].created_at && (
    #[trigger] r.intents[k]).id == s.intents[k].id && r.intents[k].created_at
        == s.intents[k].created_at by {
        transitions_keep_identity(s, id, receipt_hash, k);
    }
    if s.ids_stamped() {
        assert forall|k: int| 0 <= k < p.intents.len() implies (#[trigger] p.intents[k]).id
            == id_text("int"@, p.intents[k].created_at) by {
            assert(s.intents[k].id == id_text("int"@, s.intents[k].created_at));
        }
        assert forall|k: int| 0 <= k < r.intents.len() implies (#[trigger] r.intents[k]).id
            == id_text("int"@, r.intents[k].created_at) by {
            assert(s.intents[k].id == id_text("int"@, s.intents[k].created_at));
        }
    }
    if s.ids_distinct() {
        assert forall|i: int, j: int| 0 <= i < j < p.intents.len() implies (
        #[trigger] p.intents[i]).id != (#[trigger] p.intents[j]).id by {
            assert(s.intents[i].id != s.intents[j].id);
        }
        assert forall|i: int, j: int| 0 <= i < j < r.intents.len() implies (
        #[trigger] r.intents[i]).id != (#[trigger] r.intents[j]).id by {
            assert(s.intents[i].id != s.intents[j].id);
        }
    }
    assert forall|now: u64| s.created_before(now) implies p.created_before(now)
        && r.created_before(now) by {
        assert forall|k: int| 0 <= k < s.intents.len() implies (#[trigger] p.intents[k]).created_at
            < now && (#[trigger] r.intents[k]).created_at < now by {
            assert(s.intents[k].created_at < now);
        }
    }
}

/// No operation on intents or configurations touches an invoice: an
/// invoice stays unpaid for as long as the ledger holds it.
pub proof fn invoices_stay_as_created(
    s: StateView,
    id: Seq<char>,
    receipt_hash: Option<Seq<char>>,
    created: IntentView,
    cfg: ProviderConfigView,
    added: InvoiceView,
    k: int,
)
    requires
        0 <= k < s.invoices.len(),
    ensures
        s.mark_paid(id, receipt_hash).invoices == s.invoices,
        s.refund_intent(id).invoices == s.invoices,
        s.with_intent(created).invoices == s.invoices,
        s.set_provider_config(cfg).invoices == s.invoices,
        s.with_invoice(added).invoices[k] == s.invoices[k],
{
}

} // verus!
