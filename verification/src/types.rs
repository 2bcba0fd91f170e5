//! The records kept by the ledger and their mathematical views.

use vstd::prelude::*;

verus! {

/// The payment provider an intent or a configuration belongs to.
#[derive(Debug, PartialEq, Eq)]
pub enum Provider {
    Stripe,
    PayPal,
    CkBTC,
    Custom(String),
}

/// The category of a provider: which variant it is, without the text that
/// `Custom` carries.
#[derive(Clone, Copy, Debug, PartialEq, Eq, Structural)]
pub enum ProviderKind {
    Stripe,
    PayPal,
    CkBTC,
    Custom,
}

/// Model of a [`Provider`].
pub enum ProviderView {
    Stripe,
    PayPal,
    CkBTC,
    Custom(Seq<char>),
}

impl ProviderView {
    pub open spec fn kind(self) -> ProviderKind {
        match self {
            ProviderView::Stripe => ProviderKind::Stripe,
            ProviderView::PayPal => ProviderKind::PayPal,
            ProviderView::CkBTC => ProviderKind::CkBTC,
            ProviderView::Custom(_) => ProviderKind::Custom,
        }
    }
}

impl View for Provider {
    type V = ProviderView;

    open spec fn view(&self) -> ProviderView {
        match self {
            Provider::Stripe => ProviderView::Stripe,
            Provider::PayPal => ProviderView::PayPal,
            Provider::CkBTC => ProviderView::CkBTC,
            Provider::Custom(text) => ProviderView::Custom(text@),
        }
    }
}

impl DeepView for Provider {
    type V = ProviderView;

    open spec fn deep_view(&self) -> ProviderView {
        self@
    }
}

impl Provider {
    /// The category of this provider.
    pub fn kind(&self) -> (k: ProviderKind)
        ensures
            k == self@.kind(),
    {
        match self {
            Provider::Stripe => ProviderKind::Stripe,
            Provider::PayPal => ProviderKind::PayPal,
            Provider::CkBTC => ProviderKind::CkBTC,
            Provider::Custom(_) => ProviderKind::Custom,
        }
    }

    /// Whether two providers fall in the same category. Two `Custom`
    /// providers do, whatever text they carry.
    pub fn same_kind(&self, other: &Provider) -> (same: bool)
        ensures
            same == (self@.kind() == other@.kind()),
    {
        self.kind() == other.kind()
    }
}

impl Clone for Provider {
    fn clone(&self) -> (copy: Self)
        ensures
            copy == *self,
    {
        match self {
            Provider::Stripe => Provider::Stripe,
            Provider::PayPal => Provider::PayPal,
            Provider::CkBTC => Provider::CkBTC,
            Provider::Custom(text) => Provider::Custom(text.clone()),
        }
    }
}

/// Where an intent stands in its life. `Failed` is kept for a signal from
/// outside; no operation of the ledger sets it.
#[derive(Clone, Copy, Debug, PartialEq, Eq, Structural)]
pub enum IntentStatus {
    Processing,
    Succeeded,
    Refunded,
    Failed,
}

/// A copy of an optional text.
pub fn clone_text(text: &Option<String>) -> (copy: Option<String>)
    ensures
        copy == *text,
{
    match text {
        Some(t) => Some(t.clone()),
        None => None,
    }
}

/// One attempted payment.
#[derive(Debug, PartialEq, Eq)]
pub struct Intent {
    pub id: String,
    pub amount_minor: u64,
    pub currency: String,
    pub description: Option<String>,
    pub provider: Provider,
    pub created_at: u64,
    pub status: IntentStatus,
    pub receipt_hash: Option<String>,
}

/// Model of an [`Intent`].
pub struct IntentView {
    pub id: Seq<char>,
    pub amount_minor: u64,
    pub currency: Seq<char>,
    pub description: Option<Seq<char>>,
    pub provider: ProviderView,
    pub created_at: u64,
    pub status: IntentStatus,
    pub receipt_hash: Option<Seq<char>>,
}

impl View for Intent {
    type V = IntentView;

    open spec fn view(&self) -> IntentView {
        IntentView {
            id: self.id@,
            amount_minor: self.amount_minor,
            currency: self.currency@,
            description: self.description.deep_view(),
            provider: self.provider@,
            created_at: self.created_at,
            status: self.status,
            receipt_hash: self.receipt_hash.deep_view(),
        }
    }
}

impl DeepView for Intent {
    type V = IntentView;

    open spec fn deep_view(&self) -> IntentView {
        self@
    }
}

impl Clone for Intent {
    fn clone(&self) -> (copy: Self)
        ensures
            copy == *self,
    {
        Intent {
            id: self.id.clone(),
            amount_minor: self.amount_minor,
            currency: self.currency.clone(),
            description: clone_text(&self.description),
            provider: self.provider.clone(),
            created_at: self.created_at,
            status: self.status,
            receipt_hash: clone_text(&self.receipt_hash),
        }
    }
}

/// A billing record, independent of the intents.
#[derive(Debug, PartialEq, Eq)]
pub struct Invoice {
    pub id: String,
    pub amount_minor: u64,
    pub currency: String,
    pub issued_at: u64,
    pub email_enc: Option<String>,
    pub description: Option<String>,
    pub paid: bool,
}

/// Model of an [`Invoice`].
pub struct InvoiceView {
    pub id: Seq<char>,
    pub amount_minor: u64,
    pub currency: Seq<char>,
    pub issued_at: u64,
    pub email_enc: Option<Seq<char>>,
    pub description: Option<Seq<char>>,
    pub paid: bool,
}

impl View for Invoice {
    type V = InvoiceView;

    open spec fn view(&self) -> InvoiceView {
        InvoiceView {
            id: self.id@,
            amount_minor: self.amount_minor,
            currency: self.currency@,
            issued_at: self.issued_at,
            email_enc: self.email_enc.deep_view(),
            description: self.description.deep_view(),
            paid: self.paid,
        }
    }
}

impl DeepView for Invoice {
    type V = InvoiceView;

    open spec fn deep_view(&self) -> InvoiceView {
        self@
    }
}

impl Clone for Invoice {
    fn clone(&self) -> (copy: Self)
        ensures
            copy == *self,
    {
        Invoice {
            id: self.id.clone(),
            amount_minor: self.amount_minor,
            currency: self.currency.clone(),
            issued_at: self.issued_at,
            email_enc: clone_text(&self.email_enc),
            description: clone_text(&self.description),
            paid: self.paid,
        }
    }
}

/// The settings of one provider category: key/value pairs in the order
/// given, repeated keys allowed.
#[derive(Debug, PartialEq, Eq)]
pub struct ProviderConfig {
    pub provider: Provider,
    pub kv: Vec<(String, String)>,
}

/// Model of a [`ProviderConfig`].
pub struct ProviderConfigView {
    pub provider: ProviderView,
    pub kv: Seq<(Seq<char>, Seq<char>)>,
}

impl View for ProviderConfig {
    type V = ProviderConfigView;

    open spec fn view(&self) -> ProviderConfigView {
        ProviderConfigView { provider: self.provider@, kv: self.kv.deep_view() }
    }
}

impl DeepView for ProviderConfig {
    type V = ProviderConfigView;

    open spec fn deep_view(&self) -> ProviderConfigView {
        self@
    }
}

/// A copy of a list of key/value pairs.
pub fn clone_pairs(pairs: &Vec<(String, String)>) -> (copy: Vec<(String, String)>)
    ensures
        copy@ == pairs@,
{
    let mut copy: Vec<(String, String)> = Vec::new();
    let mut i: usize = 0;
    while i < pairs.len()
        invariant
            i <= pairs.len(),
            copy@ == pairs@.take(i as int),
        decreases pairs.len() - i,
    {
        let pair = &pairs[i];
        copy.push((pair.0.clone(), pair.1.clone()));
        proof {
            assert(pairs@.take(i + 1) =~= pairs@.take(i as int).push(pairs@[i as int]));
        }
        i = i + 1;
    }
    proof {
        assert(pairs@.take(pairs@.len() as int) =~= pairs@);
    }
    copy
}

impl Clone for ProviderConfig {
    fn clone(&self) -> (copy: Self)
        ensures
            copy@ == self@,
    {
        ProviderConfig { provider: self.provider.clone(), kv: clone_pairs(&self.kv) }
    }
}

} // verus!
