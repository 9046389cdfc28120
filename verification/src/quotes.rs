use vstd::prelude::*;
use vstd::string::StringExecFns;

use crate::catalog::{Chain, QuoteSourceKind};
use crate::text::{all_white, is_blank, replace_all, replace_text, white_space};

verus! {

/// Where and how quotes for one chain are fetched.
#[derive(Debug)]
pub struct ChainQuoteConfig {
    pub chain: Chain,
    pub kind: QuoteSourceKind,
    /// The URL to ask, with `{symbol}` where the asset's symbol goes.
    pub endpoint_template: String,
    /// The dotted path of the price in the JSON reply.
    pub price_path: String,
    /// The message sent once a WebSocket opens, with `{symbol}` where the symbol goes.
    pub ws_subscribe_template: String,
}

/// The placeholder that templates hold where the asset's symbol goes.
pub open spec fn symbol_placeholder() -> Seq<char> {
    seq!['{', 's', 'y', 'm', 'b', 'o', 'l', '}']
}

/// The endpoint that every chain starts out with.
pub open spec fn default_endpoint() -> Seq<char> {
    "https://api.binance.com/api/v3/ticker/price?symbol={symbol}USDT"@
}

/// The subscription message that every chain starts out with.
pub open spec fn default_subscribe() -> Seq<char> {
    "{\"method\":\"SUBSCRIBE\",\"params\":[\"{symbol}usdt@trade\"],\"id\":1}"@
}

/// One quote source per chain, in the order of `Chain::spec_all()`, each asking
/// the same HTTP ticker endpoint and reading the `price` member.
pub fn default_quote_sources() -> (v: Vec<ChainQuoteConfig>)
    ensures
        v.len() == Chain::spec_all().len(),
        forall|i: int|
            0 <= i < v.len() ==> {
                &&& (#[trigger] v[i]).chain == Chain::spec_all()[i]
                &&& v[i].kind == QuoteSourceKind::Rest
                &&& v[i].endpoint_template@ == default_endpoint()
                &&& v[i].price_path@ == "price"@
                &&& v[i].ws_subscribe_template@ == default_subscribe()
            },
{
    let chains = Chain::all();
    let n = chains.len();
    let mut v: Vec<ChainQuoteConfig> = Vec::new();
    for i in 0..n
        invariant
            n == chains.len(),
            chains@ == Chain::spec_all(),
            v.len() == i,
            forall|j: int|
                0 <= j < i ==> {
                    &&& (#[trigger] v[j]).chain == Chain::spec_all()[j]
                    &&& v[j].kind == QuoteSourceKind::Rest
                    &&& v[j].endpoint_template@ == default_endpoint()
                    &&& v[j].price_path@ == "price"@
                    &&& v[j].ws_subscribe_template@ == default_subscribe()
                },
    {
        let cfg = ChainQuoteConfig {
            chain: chains[i],
            kind: QuoteSourceKind::Rest,
            endpoint_template: String::from_str(
                "https://api.binance.com/api/v3/ticker/price?symbol={symbol}USDT",
            ),
            price_path: String::from_str("price"),
            ws_subscribe_template: String::from_str(
                "{\"method\":\"SUBSCRIBE\",\"params\":[\"{symbol}usdt@trade\"],\"id\":1}",
            ),
        };
        v.push(cfg);
    }
    v
}

/// The index of the first source for `chain` at or after index `i`.
pub open spec fn first_source_from(s: Seq<ChainQuoteConfig>, chain: Chain, i: int) -> Option<int>
    decreases s.len() - i,
{
    if i < 0 || i >= s.len() {
        None
    } else if s[i].chain == chain {
        Some(i)
    } else {
        first_source_from(s, chain, i + 1)
    }
}

/// The index of the first source for `chain`, the one that is used and edited.
pub open spec fn first_source(s: Seq<ChainQuoteConfig>, chain: Chain) -> Option<int> {
    first_source_from(s, chain, 0)
}

proof fn lemma_first_source_from(s: Seq<ChainQuoteConfig>, chain: Chain, i: int)
    requires
        0 <= i,
    ensures
        first_source_from(s, chain, i) matches Some(k) ==> i <= k < s.len() && s[k].chain == chain
            && forall|j: int| i <= j < k ==> s[j].chain != chain,
        first_source_from(s, chain, i) is None ==> forall|j: int| i <= j < s.len() ==> s[j].chain != chain,
    decreases s.len() - i,
{
    if i < s.len() && s[i].chain != chain {
        lemma_first_source_from(s, chain, i + 1);
    }
}

/// What `first_source` says: the first index whose source is for `chain`, if any.
pub proof fn lemma_first_source(s: Seq<ChainQuoteConfig>, chain: Chain)
    ensures
        first_source(s, chain) matches Some(k) ==> 0 <= k < s.len() && s[k].chain == chain
            && forall|j: int| 0 <= j < k ==> s[j].chain != chain,
        first_source(s, chain) is None ==> forall|j: int| 0 <= j < s.len() ==> s[j].chain != chain,
{
    lemma_first_source_from(s, chain, 0);
}

/// The position of the first source for `chain`.
pub fn find_source(sources: &Vec<ChainQuoteConfig>, chain: Chain) -> (r: Option<usize>)
    ensures
        match r {
            Some(i) => first_source(sources@, chain) == Some(i as int),
            None => first_source(sources@, chain) is None,
        },
{
    let n = sources.len();
    for i in 0..n
        invariant
            n == sources.len(),
            first_source_from(sources@, chain, 0) == first_source_from(sources@, chain, i as int),
    {
        if sources[i].chain == chain {
            return Some(i);
        }
    }
    None
}

/// A change to one field of a chain's quote source, as the settings form makes it.
#[derive(Debug)]
pub enum SourceEdit {
    Kind(QuoteSourceKind),
    EndpointTemplate(String),
    PricePath(String),
    SubscribeTemplate(String),
}

/// The source after the edit: the edited field replaced, the others kept.
pub open spec fn apply_edit(cfg: ChainQuoteConfig, edit: SourceEdit) -> ChainQuoteConfig {
    match edit {
        SourceEdit::Kind(k) => ChainQuoteConfig { kind: k, ..cfg },
        SourceEdit::EndpointTemplate(t) => ChainQuoteConfig { endpoint_template: t, ..cfg },
        SourceEdit::PricePath(p) => ChainQuoteConfig { price_path: p, ..cfg },
        SourceEdit::SubscribeTemplate(t) => ChainQuoteConfig { ws_subscribe_template: t, ..cfg },
    }
}

/// The sources after editing the first source for `chain`; unchanged when there is none.
pub open spec fn edited_sources(s: Seq<ChainQuoteConfig>, chain: Chain, edit: SourceEdit) -> Seq<
    ChainQuoteConfig,
> {
    match first_source(s, chain) {
        Some(i) => s.update(i, apply_edit(s[i], edit)),
        None => s,
    }
}

fn apply_edit_exec(cfg: ChainQuoteConfig, edit: SourceEdit) -> (r: ChainQuoteConfig)
    ensures
        r == apply_edit(cfg, edit),
{
    match edit {
        SourceEdit::Kind(k) => ChainQuoteConfig { kind: k, ..cfg },
        SourceEdit::EndpointTemplate(t) => ChainQuoteConfig { endpoint_template: t, ..cfg },
        SourceEdit::PricePath(p) => ChainQuoteConfig { price_path: p, ..cfg },
        SourceEdit::SubscribeTemplate(t) => ChainQuoteConfig { ws_subscribe_template: t, ..cfg },
    }
}

/// Applies `edit` to the first source for `chain`, leaving every other source as it was.
pub fn edit_source(sources: &mut Vec<ChainQuoteConfig>, chain: Chain, edit: SourceEdit)
    ensures
        final(sources)@ == edited_sources(old(sources)@, chain, edit),
{
    match find_source(sources, chain) {
        Some(i) => {
            proof {
                lemma_first_source(old(sources)@, chain);
            }
            let cfg = sources.remove(i);
            let updated = apply_edit_exec(cfg, edit);
            sources.insert(i, updated);
            assert(sources@ =~= old(sources)@.update(i as int, apply_edit(old(sources)@[i as int], edit)));
        },
        None => {},
    }
}

proof fn lemma_apply_edit(cfg: ChainQuoteConfig, edit: SourceEdit)
    ensures
        apply_edit(cfg, edit).chain == cfg.chain,
        apply_edit(apply_edit(cfg, edit), edit) == apply_edit(cfg, edit),
{
    match edit {
        SourceEdit::Kind(_) => {},
        SourceEdit::EndpointTemplate(_) => {},
        SourceEdit::PricePath(_) => {},
        SourceEdit::SubscribeTemplate(_) => {},
    }
}

/// An edit changes only the field it names: the chain always stays, and of
/// the kind, the endpoint template, the price path and the subscription
/// template, the edited one takes the new value and the other three keep theirs.
pub proof fn lemma_edit_changes_only_its_field(cfg: ChainQuoteConfig, edit: SourceEdit)
    ensures
        apply_edit(cfg, edit).chain == cfg.chain,
        match edit {
            SourceEdit::Kind(k) => {
                &&& apply_edit(cfg, edit).kind == k
                &&& apply_edit(cfg, edit).endpoint_template == cfg.endpoint_template
                &&& apply_edit(cfg, edit).price_path == cfg.price_path
                &&& apply_edit(cfg, edit).ws_subscribe_template == cfg.ws_subscribe_template
            },
            SourceEdit::EndpointTemplate(t) => {
                &&& apply_edit(cfg, edit).kind == cfg.kind
                &&& apply_edit(cfg, edit).endpoint_template == t
                &&& apply_edit(cfg, edit).price_path == cfg.price_path
                &&& apply_edit(cfg, edit).ws_subscribe_template == cfg.ws_subscribe_template
            },
            SourceEdit::PricePath(p) => {
                &&& apply_edit(cfg, edit).kind == cfg.kind
                &&& apply_edit(cfg, edit).endpoint_template == cfg.endpoint_template
                &&& apply_edit(cfg, edit).price_path == p
                &&& apply_edit(cfg, edit).ws_subscribe_template == cfg.ws_subscribe_template
            },
            SourceEdit::SubscribeTemplate(t) => {
                &&& apply_edit(cfg, edit).kind == cfg.kind
                &&& apply_edit(cfg, edit).endpoint_template == cfg.endpoint_template
                &&& apply_edit(cfg, edit).price_path == cfg.price_path
                &&& apply_edit(cfg, edit).ws_subscribe_template == t
            },
        },
{
}

/// An edit never moves a source to another chain, so every chain finds the
/// same position after it as before; and the source found for the edited
/// chain is the one found before with the edit applied.
pub proof fn lemma_edit_then_find(s: Seq<ChainQuoteConfig>, chain: Chain, edit: SourceEdit, other: Chain)
    ensures
        first_source(edited_sources(s, chain, edit), other) == first_source(s, other),
        edited_sources(s, chain, edit).len() == s.len(),
        first_source(s, chain) matches Some(i) ==> edited_sources(s, chain, edit)[i] == apply_edit(s[i], edit),
        forall|j: int|
            0 <= j < s.len() && first_source(s, chain) != Some(j) ==> #[trigger] edited_sources(
                s,
                chain,
                edit,
            )[j] == s[j],
{
    let t = edited_sources(s, chain, edit);
    lemma_first_source(s, chain);
    if let Some(i) = first_source(s, chain) {
        lemma_apply_edit(s[i], edit);
    }
    assert forall|j: int| 0 <= j < s.len() implies #[trigger] t[j].chain == s[j].chain by {}
    lemma_first_source(s, other);
    lemma_first_source(t, other);
    match (first_source(s, other), first_source(t, other)) {
        (Some(a), Some(b)) => {
            if a < b {
                assert(t[a].chain == s[a].chain);
            } else if b < a {
                assert(t[b].chain == s[b].chain);
            }
        },
        (Some(a), None) => {
            assert(t[a].chain == s[a].chain);
        },
        (None, Some(b)) => {
            assert(t[b].chain == s[b].chain);
        },
        (None, None) => {},
    }
}

/// Making the same edit twice leaves the sources as making it once.
pub proof fn lemma_edit_idempotent(s: Seq<ChainQuoteConfig>, chain: Chain, edit: SourceEdit)
    ensures
        edited_sources(edited_sources(s, chain, edit), chain, edit) == edited_sources(s, chain, edit),
{
    let t = edited_sources(s, chain, edit);
    lemma_edit_then_find(s, chain, edit, chain);
    match first_source(s, chain) {
        Some(i) => {
            lemma_first_source(s, chain);
            lemma_apply_edit(s[i], edit);
            assert(edited_sources(t, chain, edit) =~= t);
        },
        None => {},
    }
}

/// In a list laid out one source per chain in the order of `Chain::spec_all()`,
/// as the default sources are, every chain finds its own source.
pub proof fn lemma_every_chain_has_source(s: Seq<ChainQuoteConfig>, chain: Chain)
    requires
        s.len() == Chain::spec_all().len(),
        forall|i: int| 0 <= i < s.len() ==> (#[trigger] s[i]).chain == Chain::spec_all()[i],
    ensures
        first_source(s, chain) is Some,
{
    crate::catalog::lemma_every_chain_listed(chain);
    let k = choose|k: int| 0 <= k < Chain::spec_all().len() && Chain::spec_all()[k] == chain;
    lemma_first_source(s, chain);
    assert(s[k].chain == chain);
}

/// What to ask for one asset's quote: the URL, for a WebSocket source the
/// message to send once the socket opens (if the source has one), and where
/// the price sits in the reply.
#[derive(Debug)]
pub struct QuoteRequest {
    pub kind: QuoteSourceKind,
    pub url: String,
    pub subscribe: Option<String>,
    pub price_path: String,
}

/// The characters of an optional string.
pub open spec fn opt_view(o: Option<String>) -> Option<Seq<char>> {
    match o {
        Some(s) => Some(s@),
        None => None,
    }
}

impl View for QuoteRequest {
    type V = (QuoteSourceKind, Seq<char>, Option<Seq<char>>, Seq<char>);

    open spec fn view(&self) -> Self::V {
        (self.kind, self.url@, opt_view(self.subscribe), self.price_path@)
    }
}

/// The request for `symbol` from `cfg`: the endpoint with the symbol put in;
/// for a WebSocket source, also the subscription message with the symbol put
/// in, unless the template is blank, in which case nothing is sent; and the
/// source's price path.
pub open spec fn request_for(cfg: ChainQuoteConfig, symbol: Seq<char>) -> (
    QuoteSourceKind,
    Seq<char>,
    Option<Seq<char>>,
    Seq<char>,
) {
    let url = replace_all(cfg.endpoint_template@, symbol_placeholder(), symbol);
    match cfg.kind {
        QuoteSourceKind::Rest => (QuoteSourceKind::Rest, url, None, cfg.price_path@),
        QuoteSourceKind::WebSocket => (
            QuoteSourceKind::WebSocket,
            url,
            if all_white(cfg.ws_subscribe_template@) {
                None
            } else {
                Some(replace_all(cfg.ws_subscribe_template@, symbol_placeholder(), symbol))
            },
            cfg.price_path@,
        ),
    }
}

/// The placeholder is the text `{symbol}`; the default source asks the
/// Binance ticker endpoint for the symbol against USDT and subscribes to the
/// symbol's USDT trade stream.
pub proof fn lemma_template_texts()
    ensures
        symbol_placeholder() == "{symbol}"@,
        default_endpoint() == "https://api.binance.com/api/v3/ticker/price?symbol={symbol}USDT"@,
        default_subscribe() == "{\"method\":\"SUBSCRIBE\",\"params\":[\"{symbol}usdt@trade\"],\"id\":1}"@,
{
    reveal_strlit("{symbol}");
    assert(symbol_placeholder() =~= "{symbol}"@);
}

/// How a request is built from a source, for any source and symbol: it has the
/// source's kind and price path; its URL is the endpoint template with every
/// `{symbol}` replaced by the symbol, whatever the kind; a plain HTTP source
/// sends no message; a WebSocket source sends its subscription template with
/// `{symbol}` replaced, whether or not the template holds the placeholder,
/// unless the template is empty or all white space, when it sends nothing.
pub proof fn lemma_request_rule(cfg: ChainQuoteConfig, symbol: Seq<char>)
    ensures
        request_for(cfg, symbol).0 == cfg.kind,
        request_for(cfg, symbol).1 == replace_all(cfg.endpoint_template@, "{symbol}"@, symbol),
        request_for(cfg, symbol).3 == cfg.price_path@,
        cfg.kind == QuoteSourceKind::Rest ==> request_for(cfg, symbol).2 is None,
        cfg.kind == QuoteSourceKind::WebSocket && (forall|i: int|
            0 <= i < cfg.ws_subscribe_template@.len() ==> white_space(
                #[trigger] cfg.ws_subscribe_template@[i],
            )) ==> request_for(cfg, symbol).2 is None,
        cfg.kind == QuoteSourceKind::WebSocket && (exists|i: int|
            0 <= i < cfg.ws_subscribe_template@.len() && !white_space(
                #[trigger] cfg.ws_subscribe_template@[i],
            )) ==> request_for(cfg, symbol).2 == Some(
            replace_all(cfg.ws_subscribe_template@, "{symbol}"@, symbol),
        ),
{
    lemma_template_texts();
}

fn placeholder_chars() -> (v: Vec<char>)
    ensures
        v@ == symbol_placeholder(),
{
    let v = vec!['{', 's', 'y', 'm', 'b', 'o', 'l', '}'];
    assert(v@ =~= symbol_placeholder());
    v
}

/// The request to make for `symbol`'s quote from the source `cfg`.
pub fn quote_request(cfg: &ChainQuoteConfig, symbol: &str) -> (r: QuoteRequest)
    ensures
        r@ == request_for(*cfg, symbol@),
{
    let pat = placeholder_chars();
    let url = replace_text(cfg.endpoint_template.as_str(), &pat, symbol);
    let price_path = cfg.price_path.clone();
    match cfg.kind {
        QuoteSourceKind::Rest => QuoteRequest {
            kind: QuoteSourceKind::Rest,
            url,
            subscribe: None,
            price_path,
        },
        QuoteSourceKind::WebSocket => {
            let subscribe = if is_blank(cfg.ws_subscribe_template.as_str()) {
                None
            } else {
                Some(replace_text(cfg.ws_subscribe_template.as_str(), &pat, symbol))
            };
            QuoteRequest { kind: QuoteSourceKind::WebSocket, url, subscribe, price_path }
        },
    }
}

/// An asset whose quote is to be refreshed: its chain and its symbol.
#[derive(Debug)]
pub struct QuoteTarget {
    pub chain: Chain,
    pub symbol: String,
}

/// A request's view is its kind, the characters of its URL, of its message
/// (when it has one) and of its price path.
pub proof fn lemma_request_view(q: QuoteRequest)
    ensures
        q@.0 == q.kind,
        q@.1 == q.url@,
        q@.3 == q.price_path@,
        q.subscribe matches Some(m) ==> q@.2 == Some(m@),
        q.subscribe is None ==> q@.2 is None,
{
}

/// The view of a plan holds, at each place, the view of the request planned
/// there, or nothing where nothing is planned.
pub proof fn lemma_plan_view(p: Seq<Option<QuoteRequest>>)
    ensures
        plan_view(p).len() == p.len(),
        forall|i: int|
            0 <= i < p.len() ==> (#[trigger] plan_view(p)[i] == match p[i] {
                Some(q) => Some(q@),
                None => None,
            }),
{
}

/// The views of planned requests.
pub open spec fn plan_view(p: Seq<Option<QuoteRequest>>) -> Seq<
    Option<(QuoteSourceKind, Seq<char>, Option<Seq<char>>, Seq<char>)>,
> {
    p.map_values(|o: Option<QuoteRequest>| match o {
        Some(q) => Some(q@),
        None => None,
    })
}

/// What a refresh asks for `target`: the request from the first source for its
/// chain, or nothing when no source serves that chain (the asset is skipped).
pub open spec fn planned_request(sources: Seq<ChainQuoteConfig>, target: QuoteTarget) -> Option<
    (QuoteSourceKind, Seq<char>, Option<Seq<char>>, Seq<char>),
> {
    match first_source(sources, target.chain) {
        Some(i) => Some(request_for(sources[i], target.symbol@)),
        None => None,
    }
}

/// The quote requests of one refresh, one per asset in order. The caller makes
/// them in that order, puts each price it gets into its asset, and gives up the
/// whole refresh at the first request that fails.
pub fn plan_quote_refresh(targets: &Vec<QuoteTarget>, sources: &Vec<ChainQuoteConfig>) -> (p: Vec<
    Option<QuoteRequest>,
>)
    ensures
        p.len() == targets.len(),
        forall|i: int|
            0 <= i < targets.len() ==> #[trigger] plan_view(p@)[i] == planned_request(
                sources@,
                targets@[i],
            ),
{
    let n = targets.len();
    let mut p: Vec<Option<QuoteRequest>> = Vec::new();
    for i in 0..n
        invariant
            n == targets.len(),
            p.len() == i,
            forall|j: int|
                0 <= j < i ==> #[trigger] plan_view(p@)[j] == planned_request(sources@, targets@[j]),
    {
        let t = &targets[i];
        let planned = match find_source(sources, t.chain) {
            Some(k) => {
                proof {
                    lemma_first_source(sources@, t.chain);
                }
                Some(quote_request(&sources[k], t.symbol.as_str()))
            },
            None => None,
        };
        let ghost before = p@;
        p.push(planned);
        assert forall|j: int| 0 <= j < i + 1 implies #[trigger] plan_view(p@)[j] == planned_request(
            sources@,
            targets@[j],
        ) by {
            if j < i {
                assert(p@[j] == before[j]);
                assert(plan_view(before)[j] == planned_request(sources@, targets@[j]));
            }
        }
    }
    p
}

/// A refresh asks for an asset's quote from the first source of the asset's
/// chain: the request has that source's kind and price path, its URL is the
/// source's endpoint template with `{symbol}` replaced by the asset's symbol
/// (for WebSocket sources too), and its message is as `lemma_request_rule` says.
pub proof fn lemma_plan_uses_first_source(s: Seq<ChainQuoteConfig>, target: QuoteTarget, i: int)
    requires
        0 <= i < s.len(),
        s[i].chain == target.chain,
        forall|j: int| 0 <= j < i ==> s[j].chain != target.chain,
    ensures
        planned_request(s, target) matches Some(q) && q == request_for(s[i], target.symbol@)
            && q.0 == s[i].kind && q.1 == replace_all(
            s[i].endpoint_template@,
            "{symbol}"@,
            target.symbol@,
        ) && q.3 == s[i].price_path@,
{
    lemma_first_source(s, target.chain);
    lemma_request_rule(s[i], target.symbol@);
    let k = first_source(s, target.chain)->0;
    if k < i {
        assert(s[k].chain == target.chain);
    } else if k > i {
        assert(s[i].chain != target.chain);
    }
}

/// A refresh skips an asset exactly when no source serves its chain.
pub proof fn lemma_plan_skips_unserved(s: Seq<ChainQuoteConfig>, target: QuoteTarget)
    ensures
        planned_request(s, target) is None <==> forall|j: int|
            0 <= j < s.len() ==> s[j].chain != target.chain,
{
    lemma_first_source(s, target.chain);
}

/// With sources laid out one per chain like the default ones, a refresh asks
/// for every asset's quote: none is skipped.
pub proof fn lemma_default_layout_serves_every_asset(s: Seq<ChainQuoteConfig>, target: QuoteTarget)
    requires
        s.len() == Chain::spec_all().len(),
        forall|i: int| 0 <= i < s.len() ==> (#[trigger] s[i]).chain == Chain::spec_all()[i],
    ensures
        planned_request(s, target) is Some,
{
    lemma_every_chain_has_source(s, target.chain);
}

} // verus!
