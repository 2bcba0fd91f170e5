//! The ledger itself: the three collections and every operation on them.
//!
//! The ledger never reads a clock. An operation that stamps a record takes
//! the current time as `now`.

use crate::ident::gen_id;
use crate::laws::set_provider_config_keeps_wf;
use crate::model::{
    is_first_of_kind, is_first_with_id, lemma_first_of_kind, lemma_first_with_id, lemma_no_id,
    lemma_no_kind, new_intent, new_invoice, paid, position_of_id, position_of_kind, refunded,
    StateView,
};
use crate::types::{Intent, IntentStatus, Invoice, Provider, ProviderConfig};
use vstd::prelude::*;

verus! {

/// A copy of a list of intents.
fn clone_intents(list: &Vec<Intent>) -> (copy: Vec<Intent>)
    ensures
        copy@ == list@,
{
    let mut copy: Vec<Intent> = Vec::new();
    let mut i: usize = 0;
    while i < list.len()
        invariant
            i <= list.len(),
            copy@ == list@.take(i as int),
        decreases list.len() - i,
    {
        copy.push(list[i].clone());
        proof {
            assert(list@.take(i + 1) =~= list@.take(i as int).push(list@[i as int]));
        }
        i = i + 1;
    }
    proof {
        assert(list@.take(list@.len() as int) =~= list@);
    }
    copy
}

/// A copy of a list of invoices.
fn clone_invoices(list: &Vec<Invoice>) -> (copy: Vec<Invoice>)
    ensures
        copy@ == list@,
{
    let mut copy: Vec<Invoice> = Vec::new();
    let mut i: usize = 0;
    while i < list.len()
        invariant
            i <= list.len(),
            copy@ == list@.take(i as int),
        decreases list.len() - i,
    {
        copy.push(list[i].clone());
        proof {
            assert(list@.take(i + 1) =~= list@.take(i as int).push(list@[i as int]));
        }
        i = i + 1;
    }
    proof {
        assert(list@.take(list@.len() as int) =~= list@);
    }
    copy
}

/// A copy of a list of configurations.
fn clone_configs(list: &Vec<ProviderConfig>) -> (copy: Vec<ProviderConfig>)
    ensures
        copy.deep_view() == list.deep_view(),
{
    let mut copy: Vec<ProviderConfig> = Vec::new();
    let mut i: usize = 0;
    while i < list.len()
        invariant
            i <= list.len(),
            copy@.len() == i,
            forall|j: int| 0 <= j < i ==> (#[trigger] copy@[j])@ == list@[j]@,
        decreases list.len() - i,
    {
        copy.push(list[i].clone());
        i = i + 1;
    }
    proof {
        assert(copy.deep_view() =~= list.deep_view());
    }
    copy
}

/// The ledger: intents, invoices and provider configurations, each in the
/// order in which they were recorded.
pub struct StableState {
    intents: Vec<Intent>,
    invoices: Vec<Invoice>,
    configs: Vec<ProviderConfig>,
}

impl View for StableState {
    type V = StateView;

    closed spec fn view(&self) -> StateView {
        StateView {
            intents: self.intents.deep_view(),
            invoices: self.invoices.deep_view(),
            configs: self.configs.deep_view(),
        }
    }
}

impl Default for StableState {
    fn default() -> (state: StableState)
        ensures
            state@ == StateView::empty(),
    {
        StableState::new()
    }
}

impl StableState {
    /// The empty ledger.
    pub fn new() -> (state: StableState)
        ensures
            state@ == StateView::empty(),
            state@.wf(),
    {
        let state = StableState { intents: Vec::new(), invoices: Vec::new(), configs: Vec::new() };
        proof {
            assert(state.intents.deep_view() =~= Seq::empty());
            assert(state.invoices.deep_view() =~= Seq::empty());
            assert(state.configs.deep_view() =~= Seq::empty());
        }
        state
    }

    /// A ledger that holds the given records, in the given order.
    pub fn from_parts(
        intents: Vec<Intent>,
        invoices: Vec<Invoice>,
        configs: Vec<ProviderConfig>,
    ) -> (state: StableState)
        ensures
            state@ == (StateView {
                intents: intents.deep_view(),
                invoices: invoices.deep_view(),
                configs: configs.deep_view(),
            }),
    {
        StableState { intents, invoices, configs }
    }

    /// The ledger to start from after a restart: the decoded snapshot, or
    /// the empty ledger where none could be decoded.
    pub fn restore(decoded: Option<StableState>) -> (state: StableState)
        ensures
            state@ == match decoded {
                Some(saved) => saved@,
                None => StateView::empty(),
            },
    {
        match decoded {
            Some(saved) => saved,
            None => StableState::new(),
        }
    }

    /// The first position whose intent holds `id`.
    fn find_intent(&self, id: &String) -> (found: Option<usize>)
        ensures
            match found {
                Some(k) => position_of_id(self@.intents, id@) == Some(k as int) && k
                    < self.intents@.len(),
                None => position_of_id(self@.intents, id@) is None,
            },
    {
        let mut i: usize = 0;
        while i < self.intents.len()
            invariant
                i <= self.intents@.len(),
                forall|j: int| 0 <= j < i ==> (#[trigger] self@.intents[j]).id != id@,
            decreases self.intents@.len() - i,
        {
            if self.intents[i].id == *id {
                proof {
                    assert(self@.intents[i as int].id == id@);
                    assert(is_first_with_id(self@.intents, id@, i as int));
                    lemma_first_with_id(self@.intents, id@, i as int);
                }
                return Some(i);
            }
            proof {
                assert(self@.intents[i as int].id != id@);
            }
            i = i + 1;
        }
        proof {
            lemma_no_id(self@.intents, id@);
        }
        None
    }

    /// The first position whose configuration is of the category of
    /// `provider`.
    fn find_config(&self, provider: &Provider) -> (found: Option<usize>)
        ensures
            match found {
                Some(k) => position_of_kind(self@.configs, provider@.kind()) == Some(k as int) && k
                    < self.configs@.len(),
                None => position_of_kind(self@.configs, provider@.kind()) is None,
            },
    {
        let mut i: usize = 0;
        while i < self.configs.len()
            invariant
                i <= self.configs@.len(),
                forall|j: int|
                    0 <= j < i ==> (#[trigger] self@.configs[j]).provider.kind()
                        != provider@.kind(),
            decreases self.configs@.len() - i,
        {
            if self.configs[i].provider.same_kind(provider) {
                proof {
                    assert(self@.configs[i as int].provider.kind() == provider@.kind());
                    assert(is_first_of_kind(self@.configs, provider@.kind(), i as int));
                    lemma_first_of_kind(self@.configs, provider@.kind(), i as int);
                }
                return Some(i);
            }
            proof {
                assert(self@.configs[i as int].provider.kind() != provider@.kind());
            }
            i = i + 1;
        }
        proof {
            lemma_no_kind(self@.configs, provider@.kind());
        }
        None
    }

    /// Records a new intent, created at `now`, and returns a copy of it.
    /// Nothing about the values is checked.
    pub fn create_intent(
        &mut self,
        now: u64,
        amount_minor: u64,
        currency: String,
        description: Option<String>,
        provider: Provider,
    ) -> (intent: Intent)
        ensures
            intent@ == new_intent(
                now,
                amount_minor,
                currency@,
                description.deep_view(),
                provider@,
            ),
            final(self)@ == old(self)@.with_intent(intent@),
    {
        let intent = Intent {
            id: gen_id("int", now),
            amount_minor,
            currency,
            description,
            provider,
            created_at: now,
            status: IntentStatus::Processing,
            receipt_hash: None,
        };
        self.intents.push(intent.clone());
        proof {
            assert(self.intents.deep_view() =~= old(self).intents.deep_view().push(intent@));
        }
        intent
    }

    /// A copy of the first intent that holds `id`, if there is one.
    pub fn get_intent(&self, id: String) -> (found: Option<Intent>)
        ensures
            found.deep_view() == self@.get_intent(id@),
    {
        match self.find_intent(&id) {
            Some(k) => Some(self.intents[k].clone()),
            None => None,
        }
    }

    /// Copies of all intents, in the order in which they were created.
    pub fn list_intents(&self) -> (list: Vec<Intent>)
        ensures
            list.deep_view() == self@.intents,
            list@.len() == self@.intents.len(),
    {
        let list = clone_intents(&self.intents);
        proof {
            assert(list.deep_view() =~= self.intents.deep_view());
        }
        list
    }

    /// Marks the first intent that holds `id` as succeeded, with
    /// `receipt_hash` in place of the receipt it had, and returns a copy of
    /// it. Where no intent holds `id`, nothing changes and nothing is
    /// returned. The intent's earlier status is not looked at.
    pub fn mark_paid(&mut self, id: String, receipt_hash: Option<String>) -> (updated: Option<
        Intent,
    >)
        ensures
            final(self)@ == old(self)@.mark_paid(id@, receipt_hash.deep_view()),
            updated.deep_view() == final(self)@.get_intent(id@),
            updated is Some <==> old(self)@.has_intent(id@),
    {
        proof {
            lemma_no_id(self@.intents, id@);
        }
        match self.find_intent(&id) {
            Some(k) => {
                let ghost receipt = receipt_hash.deep_view();
                self.intents[k].status = IntentStatus::Succeeded;
                self.intents[k].receipt_hash = receipt_hash;
                let updated = self.intents[k].clone();
                proof {
                    assert(self.intents.deep_view() =~= old(self).intents.deep_view().update(
                        k as int,
                        paid(old(self)@.intents[k as int], receipt),
                    ));
                    assert(is_first_with_id(self@.intents, id@, k as int));
                    lemma_first_with_id(self@.intents, id@, k as int);
                }
                Some(updated)
            },
            None => None,
        }
    }

    /// Marks the first intent that holds `id` as refunded, its receipt left
    /// as it is, and returns a copy of it. Where no intent holds `id`,
    /// nothing changes and nothing is returned. The intent's earlier status
    /// is not looked at.
    pub fn refund_intent(&mut self, id: String) -> (updated: Option<Intent>)
        ensures
            final(self)@ == old(self)@.refund_intent(id@),
            updated.deep_view() == final(self)@.get_intent(id@),
            updated is Some <==> old(self)@.has_intent(id@),
    {
        proof {
            lemma_no_id(self@.intents, id@);
        }
        match self.find_intent(&id) {
            Some(k) => {
                self.intents[k].status = IntentStatus::Refunded;
                let updated = self.intents[k].clone();
                proof {
                    assert(self.intents.deep_view() =~= old(self).intents.deep_view().update(
                        k as int,
                        refunded(old(self)@.intents[k as int]),
                    ));
                    assert(is_first_with_id(self@.intents, id@, k as int));
                    lemma_first_with_id(self@.intents, id@, k as int);
                }
                Some(updated)
            },
            None => None,
        }
    }

    /// Records a new invoice, issued at `now` and not paid, and returns a
    /// copy of it. Nothing about the values is checked.
    pub fn create_invoice(
        &mut self,
        now: u64,
        amount_minor: u64,
        currency: String,
        email_enc: Option<String>,
        description: Option<String>,
    ) -> (invoice: Invoice)
        ensures
            invoice@ == new_invoice(
                now,
                amount_minor,
                currency@,
                email_enc.deep_view(),
                description.deep_view(),
            ),
            final(self)@ == old(self)@.with_invoice(invoice@),
    {
        let invoice = Invoice {
            id: gen_id("inv", now),
            amount_minor,
            currency,
            issued_at: now,
            email_enc,
            description,
            paid: false,
        };
        self.invoices.push(invoice.clone());
        proof {
            assert(self.invoices.deep_view() =~= old(self).invoices.deep_view().push(invoice@));
        }
        invoice
    }

    /// Copies of all invoices, in the order in which they were created.
    pub fn list_invoices(&self) -> (list: Vec<Invoice>)
        ensures
            list.deep_view() == self@.invoices,
            list@.len() == self@.invoices.len(),
    {
        let list = clone_invoices(&self.invoices);
        proof {
            assert(list.deep_view() =~= self.invoices.deep_view());
        }
        list
    }

    /// Stores `cfg` in place of the first configuration of the same
    /// provider category, or after the others where there is none.
    pub fn set_provider_config(&mut self, cfg: ProviderConfig)
        ensures
            final(self)@ == old(self)@.set_provider_config(cfg@),
            old(self)@.wf() ==> final(self)@.wf(),
    {
        proof {
            if self@.wf() {
                set_provider_config_keeps_wf(self@, cfg@);
            }
        }
        let ghost view = cfg@;
        match self.find_config(&cfg.provider) {
            Some(k) => {
                self.configs.set(k, cfg);
                proof {
                    assert(self.configs.deep_view() =~= old(self).configs.deep_view().update(
                        k as int,
                        view,
                    ));
                }
            },
            None => {
                self.configs.push(cfg);
                proof {
                    assert(self.configs.deep_view() =~= old(self).configs.deep_view().push(view));
                }
            },
        }
    }

    /// Copies of all configurations, in the order in which their
    /// categories were first set.
    pub fn get_provider_configs(&self) -> (list: Vec<ProviderConfig>)
        ensures
            list.deep_view() == self@.configs,
            list@.len() == self@.configs.len(),
    {
        clone_configs(&self.configs)
    }
}

/// The liveness probe: always alive, with the time of the probe.
pub fn health(now: u64) -> (report: (bool, u64))
    ensures
        report == (true, now),
{
    (true, now)
}

} // verus!
