//! The mathematical model of the ledger: three sequences and the effect of
//! each operation on them.

use crate::ident::id_text;
use crate::types::{
    IntentStatus, IntentView, InvoiceView, ProviderConfigView, ProviderKind, ProviderView,
};
use vstd::prelude::*;

verus! {

/// Whether `k` is the first position in `intents` that holds `id`.
pub open spec fn is_first_with_id(intents: Seq<IntentView>, id: Seq<char>, k: int) -> bool {
    &&& 0 <= k < intents.len()
    &&& intents[k].id == id
    &&& forall|j: int| 0 <= j < k ==> (#[trigger] intents[j]).id != id
}

/// The first position in `intents` that holds `id`, if there is one.
pub open spec fn position_of_id(intents: Seq<IntentView>, id: Seq<char>) -> Option<int> {
    if exists|k: int| is_first_with_id(intents, id, k) {
        Some(choose|k: int| is_first_with_id(intents, id, k))
    } else {
        None
    }
}

/// Whether `k` is the first position in `configs` whose provider is of
/// category `kind`.
pub open spec fn is_first_of_kind(
    configs: Seq<ProviderConfigView>,
    kind: ProviderKind,
    k: int,
) -> bool {
    &&& 0 <= k < configs.len()
    &&& configs[k].provider.kind() == kind
    &&& forall|j: int| 0 <= j < k ==> (#[trigger] configs[j]).provider.kind() != kind
}

/// The first position in `configs` whose provider is of category `kind`,
/// if there is one.
pub open spec fn position_of_kind(configs: Seq<ProviderConfigView>, kind: ProviderKind) -> Option<
    int,
> {
    if exists|k: int| is_first_of_kind(configs, kind, k) {
        Some(choose|k: int| is_first_of_kind(configs, kind, k))
    } else {
        None
    }
}

/// No two configurations are of the same provider category.
pub open spec fn distinct_kinds(configs: Seq<ProviderConfigView>) -> bool {
    forall|i: int, j: int|
        0 <= i < j < configs.len() ==> (#[trigger] configs[i]).provider.kind() != (
        #[trigger] configs[j]).provider.kind()
}

/// The intent that a creation at time `now` records.
pub open spec fn new_intent(
    now: u64,
    amount_minor: u64,
    currency: Seq<char>,
    description: Option<Seq<char>>,
    provider: ProviderView,
) -> IntentView {
    IntentView {
        id: id_text("int"@, now),
        amount_minor,
        currency,
        description,
        provider,
        created_at: now,
        status: IntentStatus::Processing,
        receipt_hash: None,
    }
}

/// The invoice that a creation at time `now` records.
pub open spec fn new_invoice(
    now: u64,
    amount_minor: u64,
    currency: Seq<char>,
    email_enc: Option<Seq<char>>,
    description: Option<Seq<char>>,
) -> InvoiceView {
    InvoiceView {
        id: id_text("inv"@, now),
        amount_minor,
        currency,
        issued_at: now,
        email_enc,
        description,
        paid: false,
    }
}

/// An intent after it was marked paid with `receipt_hash`.
pub open spec fn paid(intent: IntentView, receipt_hash: Option<Seq<char>>) -> IntentView {
    IntentView { status: IntentStatus::Succeeded, receipt_hash, ..intent }
}

/// An intent after it was refunded.
pub open spec fn refunded(intent: IntentView) -> IntentView {
    IntentView { status: IntentStatus::Refunded, ..intent }
}

/// What the ledger holds.
pub struct StateView {
    pub intents: Seq<IntentView>,
    pub invoices: Seq<InvoiceView>,
    pub configs: Seq<ProviderConfigView>,
}

impl StateView {
    /// The ledger that holds nothing.
    pub open spec fn empty() -> StateView {
        StateView { intents: Seq::empty(), invoices: Seq::empty(), configs: Seq::empty() }
    }

    /// At most one configuration is kept per provider category.
    pub open spec fn wf(self) -> bool {
        distinct_kinds(self.configs)
    }

    /// Every intent holds the id that is made from its time of creation.
    pub open spec fn ids_stamped(self) -> bool {
        forall|k: int|
            0 <= k < self.intents.len() ==> (#[trigger] self.intents[k]).id == id_text(
                "int"@,
                self.intents[k].created_at,
            )
    }

    /// Every intent was created before `now`.
    pub open spec fn created_before(self, now: u64) -> bool {
        forall|k: int| 0 <= k < self.intents.len() ==> (#[trigger] self.intents[k]).created_at < now
    }

    /// No two intents hold the same id.
    pub open spec fn ids_distinct(self) -> bool {
        forall|i: int, j: int|
            0 <= i < j < self.intents.len() ==> (#[trigger] self.intents[i]).id != (
            #[trigger] self.intents[j]).id
    }

    /// Whether some intent holds `id`.
    pub open spec fn has_intent(self, id: Seq<char>) -> bool {
        exists|k: int| 0 <= k < self.intents.len() && (#[trigger] self.intents[k]).id == id
    }

    /// The first intent that holds `id`, if there is one.
    pub open spec fn get_intent(self, id: Seq<char>) -> Option<IntentView> {
        match position_of_id(self.intents, id) {
            Some(k) => Some(self.intents[k]),
            None => None,
        }
    }

    /// The ledger with `intent` appended.
    pub open spec fn with_intent(self, intent: IntentView) -> StateView {
        StateView { intents: self.intents.push(intent), ..self }
    }

    /// The ledger with `invoice` appended.
    pub open spec fn with_invoice(self, invoice: InvoiceView) -> StateView {
        StateView { invoices: self.invoices.push(invoice), ..self }
    }

    /// The ledger after the first intent with `id` was marked paid; the
    /// ledger itself where no intent holds `id`.
    pub open spec fn mark_paid(self, id: Seq<char>, receipt_hash: Option<Seq<char>>) -> StateView {
        match position_of_id(self.intents, id) {
            Some(k) => StateView {
                intents: self.intents.update(k, paid(self.intents[k], receipt_hash)),
                ..self
            },
            None => self,
        }
    }

    /// The ledger after the first intent with `id` was refunded; the ledger
    /// itself where no intent holds `id`.
    pub open spec fn refund_intent(self, id: Seq<char>) -> StateView {
        match position_of_id(self.intents, id) {
            Some(k) => StateView {
                intents: self.intents.update(k, refunded(self.intents[k])),
                ..self
            },
            None => self,
        }
    }

    /// The ledger after `cfg` took the place of the first configuration of
    /// its category, or was appended where there was none.
    pub open spec fn set_provider_config(self, cfg: ProviderConfigView) -> StateView {
        match position_of_kind(self.configs, cfg.provider.kind()) {
            Some(k) => StateView { configs: self.configs.update(k, cfg), ..self },
            None => StateView { configs: self.configs.push(cfg), ..self },
        }
    }
}

/// The first position that holds `id` is the position that
/// [`position_of_id`] names.
pub proof fn lemma_first_with_id(intents: Seq<IntentView>, id: Seq<char>, k: int)
    requires
        is_first_with_id(intents, id, k),
    ensures
        position_of_id(intents, id) == Some(k),
{
    let c = choose|c: int| is_first_with_id(intents, id, c);
    assert(is_first_with_id(intents, id, c));
    if c < k {
        assert(intents[c].id != id);
    }
    if k < c {
        assert(intents[k].id != id);
    }
}

/// Where no intent holds `id`, [`position_of_id`] names no position; and
/// where it names none, no intent holds `id`.
pub proof fn lemma_no_id(intents: Seq<IntentView>, id: Seq<char>)
    ensures
        position_of_id(intents, id) is None <==> (forall|j: int|
            0 <= j < intents.len() ==> (#[trigger] intents[j]).id != id),
        position_of_id(intents, id) is Some ==> is_first_with_id(
            intents,
            id,
            position_of_id(intents, id).unwrap(),
        ),
{
    if forall|j: int| 0 <= j < intents.len() ==> (#[trigger] intents[j]).id != id {
        if exists|k: int| is_first_with_id(intents, id, k) {
            let k = choose|k: int| is_first_with_id(intents, id, k);
            assert(intents[k].id == id);
        }
    } else {
        let j = choose|j: int| 0 <= j < intents.len() && (#[trigger] intents[j]).id == id;
        lemma_first_exists(intents, id, j);
    }
}

/// Where position `j` holds `id`, there is a first position that does.
proof fn lemma_first_exists(intents: Seq<IntentView>, id: Seq<char>, j: int)
    requires
        0 <= j < intents.len(),
        intents[j].id == id,
    ensures
        exists|k: int| is_first_with_id(intents, id, k),
    decreases j,
{
    if exists|i: int| 0 <= i < j && (#[trigger] intents[i]).id == id {
        let i = choose|i: int| 0 <= i < j && (#[trigger] intents[i]).id == id;
        lemma_first_exists(intents, id, i);
    } else {
        assert(is_first_with_id(intents, id, j));
    }
}

/// The first position of category `kind` is the position that
/// [`position_of_kind`] names.
pub proof fn lemma_first_of_kind(configs: Seq<ProviderConfigView>, kind: ProviderKind, k: int)
    requires
        is_first_of_kind(configs, kind, k),
    ensures
        position_of_kind(configs, kind) == Some(k),
{
    let c = choose|c: int| is_first_of_kind(configs, kind, c);
    assert(is_first_of_kind(configs, kind, c));
    if c < k {
        assert(configs[c].provider.kind() != kind);
    }
    if k < c {
        assert(configs[k].provider.kind() != kind);
    }
}

/// Where no configuration is of category `kind`, [`position_of_kind`]
/// names no position.
pub proof fn lemma_no_kind(configs: Seq<ProviderConfigView>, kind: ProviderKind)
    requires
        forall|j: int| 0 <= j < configs.len() ==> (#[trigger] configs[j]).provider.kind() != kind,
    ensures
        position_of_kind(configs, kind) is None,
{
    if exists|k: int| is_first_of_kind(configs, kind, k) {
        let k = choose|k: int| is_first_of_kind(configs, kind, k);
        assert(configs[k].provider.kind() == kind);
    }
}

/// What [`position_of_kind`] names is a first position of that category.
pub proof fn lemma_position_of_kind(configs: Seq<ProviderConfigView>, kind: ProviderKind)
    ensures
        position_of_kind(configs, kind) is Some ==> is_first_of_kind(
            configs,
            kind,
            position_of_kind(configs, kind).unwrap(),
        ),
        position_of_kind(configs, kind) is None ==> (forall|j: int|
            0 <= j < configs.len() ==> (#[trigger] configs[j]).provider.kind() != kind),
{
    if position_of_kind(configs, kind) is None {
        assert forall|j: int| 0 <= j < configs.len() implies (
        #[trigger] configs[j]).provider.kind() != kind by {
            if configs[j].provider.kind() == kind {
                lemma_first_kind_exists(configs, kind, j);
            }
        }
    }
}

/// Where position `j` is of category `kind`, there is a first position
/// that is.
proof fn lemma_first_kind_exists(configs: Seq<ProviderConfigView>, kind: ProviderKind, j: int)
    requires
        0 <= j < configs.len(),
        configs[j].provider.kind() == kind,
    ensures
        exists|k: int| is_first_of_kind(configs, kind, k),
    decreases j,
{
    if exists|i: int| 0 <= i < j && (#[trigger] configs[i]).provider.kind() == kind {
        let i = choose|i: int| 0 <= i < j && (#[trigger] configs[i]).provider.kind() == kind;
        lemma_first_kind_exists(configs, kind, i);
    } else {
        assert(is_first_of_kind(configs, kind, j));
    }
}

/// Two sequences of intents that hold the same ids at the same positions
/// name the same position for every id.
pub proof fn lemma_same_ids_same_position(a: Seq<IntentView>, b: Seq<IntentView>, id: Seq<char>)
    requires
        a.len() == b.len(),
        forall|j: int| 0 <= j < a.len() ==> (#[trigger] a[j]).id == b[j].id,
    ensures
        position_of_id(a, id) == position_of_id(b, id),
{
    lemma_no_id(a, id);
    lemma_no_id(b, id);
    match position_of_id(a, id) {
        Some(k) => {
            assert(is_first_with_id(b, id, k)) by {
                assert(a[k].id == b[k].id);
                assert forall|j: int| 0 <= j < k implies (#[trigger] b[j]).id != id by {
                    assert(a[j].id == b[j].id);
                }
            }
            lemma_first_with_id(b, id, k);
        },
        None => {
            assert forall|j: int| 0 <= j < b.len() implies (#[trigger] b[j]).id != id by {
                assert(a[j].id == b[j].id);
            }
        },
    }
}

} // verus!
