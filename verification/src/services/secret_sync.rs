//! The exchange with the central issuer of OIDC clients: which clients a site
//! asks for, what is handed to the helpers that do the asking, and how what
//! they bring back enters the local store.
//!
//! The helpers themselves are run by the caller. For each provider the
//! exchange is planned at most once.

use vstd::prelude::*;
use vstd::string::*;

use crate::address::{address, spec_address};
use crate::config::{lemma_texts_put, spec_join_path, texts, Config, Host, LocalConf};
use crate::identity::Network;
use crate::ordered_map::{
    first_with_key, lemma_lookup_front, lemma_put_same, lookup, put, sorted_keys, text_lt,
    OrderedMap,
};
use crate::services::beam::{url_host_text, BeamProxy, BrokerProvider};
use crate::utils::{
    concat2, concat3, find_char, join_texts, lemma_find_char, lemma_split_join, lines,
    spec_find_char, spec_join, spec_lines, spec_skip_char, spec_skip_char_back, spec_split,
    spec_strip_cr, spec_trim_char, texts_of, trim_char,
};

verus! {

/// What is known of an issuer of OIDC clients.
pub trait OidcProvider {
    /// The network through which the issuer is reached.
    type BeamProvider: BrokerProvider;

    spec fn spec_issuer_url() -> Seq<char>;

    /// The beam id of the issuer's helper: a fixed prefix before the id of
    /// the network's broker.
    fn oidc_provider_id() -> (id: Option<String>)
        ensures
            match id {
                Some(id) => url_host_text(Self::BeamProvider::spec_broker_url()) matches Some(h)
                    && id@ == "secret-sync-central.central-secret-sync."@ + h,
                None => url_host_text(Self::BeamProvider::spec_broker_url()) is None,
            },
    ;

    fn issuer_url() -> (url: String)
        ensures
            url@ == Self::spec_issuer_url(),
    ;
}

/// The URLs under which the path `path` of the site is reached: for a domain,
/// one on its first label and one on the whole of it; for an address, one.
pub open spec fn spec_redirect_urls(path: Seq<char>, host: Host) -> Seq<Seq<char>> {
    match host {
        Host::Domain(d) => {
            let dot = spec_find_char(d@, '.', 0);
            if dot < d@.len() {
                seq!["https://"@ + d@.subrange(0, dot) + path, "https://"@ + d@ + path]
            } else {
                seq!["https://"@ + d@ + path]
            }
        },
        Host::Ipv4(a) => seq!["https://"@ + a@ + path],
        Host::Ipv6(a) => seq!["https://["@ + a@ + "]"@ + path],
    }
}

pub fn redirect_urls_for_path(path: &str, host: &Host) -> (out: Vec<String>)
    ensures
        texts_of(out@) == spec_redirect_urls(path@, *host),
{
    let mut out: Vec<String> = Vec::new();
    match host {
        Host::Domain(domain) => {
            let d = domain.as_str();
            proof {
                lemma_find_char(d@, '.', 0);
            }
            match find_char(d, '.') {
                Some(dot) => {
                    out.push(concat3("https://", d.substring_char(0, dot), path));
                },
                None => {},
            }
            out.push(concat3("https://", d, path));
        },
        Host::Ipv4(addr) => {
            out.push(concat3("https://", addr.as_str(), path));
        },
        Host::Ipv6(addr) => {
            let mut url = concat3("https://[", addr.as_str(), "]");
            url.append(path);
            out.push(url);
        },
    }
    assert(texts_of(out@) =~= spec_redirect_urls(path@, *host));
    out
}

/// The client that a provider issues for the public parts of a site.
#[derive(Debug)]
pub struct PublicOidcClient {
    pub provider: Network,
    pub client_id: String,
}

impl PublicOidcClient {
    pub fn client_id(&self) -> (id: &str)
        ensures
            id@ == self.client_id@,
    {
        self.client_id.as_str()
    }
}

/// The client that a provider issues for the parts of a site that keep a
/// secret.
#[derive(Debug)]
pub struct PrivateOidcClient {
    pub provider: Network,
    pub client_id: String,
    pub private_client_name: String,
}

impl PrivateOidcClient {
    pub fn client_id(&self) -> (id: &str)
        ensures
            id@ == self.client_id@,
    {
        self.client_id.as_str()
    }

    /// The secret of the client as the local store holds it; the empty text
    /// as long as the provider has not issued one.
    pub fn client_secret(&self, local: &LocalConf) -> (secret: String)
        requires
            local.wf(),
        ensures
            secret@ == match lookup(local.oidc_entries(), self.private_client_name@) {
                Some(s) => s,
                None => Seq::<char>::empty(),
            },
    {
        proof {
            if local.oidc is Some {
                lemma_texts_lookup(local.oidc->0@, self.private_client_name@);
            } else {
                crate::ordered_map::lemma_lookup_none(
                    local.oidc_entries(),
                    self.private_client_name@,
                );
            }
        }
        match &local.oidc {
            Some(oidc) => match oidc.get(self.private_client_name.as_str()) {
                Some(s) => s.clone(),
                None => String::new(),
            },
            None => String::new(),
        }
    }
}

/// Looking a key up in a map of texts finds the text of what the map holds.
pub proof fn lemma_texts_lookup(s: Seq<(Seq<char>, String)>, k: Seq<char>)
    ensures
        lookup(texts(s), k) == match lookup(s, k) {
            Some(v) => Some(v@),
            None => None::<Seq<char>>,
        },
{
    lemma_texts_first(s, k, 0);
    crate::ordered_map::lemma_first_with_key(s, k, 0);
    let p = crate::ordered_map::first_with_key(s, k, 0);
    if p < s.len() {
        assert(texts(s)[p].1 == s[p].1@);
    }
}

proof fn lemma_texts_first(s: Seq<(Seq<char>, String)>, k: Seq<char>, i: int)
    requires
        0 <= i <= s.len(),
    ensures
        crate::ordered_map::first_with_key(texts(s), k, i) == crate::ordered_map::first_with_key(
            s,
            k,
            i,
        ),
    decreases s.len() - i,
{
    if i < s.len() {
        assert(texts(s)[i].0 == s[i].0);
        lemma_texts_first(s, k, i + 1);
    }
}

/// What a site asks of one provider.
#[derive(Debug)]
pub struct OidcClient {
    pub provider: Network,
    pub pub_redirect_paths: Vec<String>,
    pub priv_redirect_urls: Vec<String>,
    pub synced: bool,
}

/// What the site asks of each provider it turned to.
#[derive(Debug)]
pub struct OidcClients {
    pub clients: Vec<OidcClient>,
}

/// The index of the first of `clients`, from `i` on, that belongs to
/// `provider`; the length of `clients` if there is none.
pub open spec fn client_index(clients: Seq<OidcClient>, provider: Network, i: int) -> int
    decreases clients.len() - i,
{
    if i < 0 || i >= clients.len() {
        clients.len() as int
    } else if clients[i].provider == provider {
        i
    } else {
        client_index(clients, provider, i + 1)
    }
}

pub proof fn lemma_client_index(clients: Seq<OidcClient>, provider: Network, i: int)
    requires
        0 <= i <= clients.len(),
    ensures
        i <= client_index(clients, provider, i) <= clients.len(),
        client_index(clients, provider, i) < clients.len() ==> clients[client_index(
            clients,
            provider,
            i,
        )].provider == provider,
    decreases clients.len() - i,
{
    if i < clients.len() && clients[i].provider != provider {
        lemma_client_index(clients, provider, i + 1);
    }
}

/// The public and the private name of the client of a network.
pub open spec fn spec_public_client_name(network: Network) -> Seq<char> {
    network.spec_name() + "_public_client"@
}

pub open spec fn spec_private_client_name(network: Network) -> Seq<char> {
    network.spec_name() + "_client_secret"@
}

/// The record that asks for one client: its name, its kind and the URLs it
/// may redirect to.
pub open spec fn spec_definition(name: Seq<char>, kind: Seq<char>, urls: Seq<Seq<char>>) -> Seq<
    char,
> {
    "OIDC:"@ + name + ":"@ + kind + ";"@ + spec_join(urls, ","@)
}

/// The records handed to the helper, separated by the record separator: one
/// for the public client if it has URLs, one for the private client if it
/// has.
pub open spec fn spec_secret_definitions(
    network: Network,
    public_urls: Seq<Seq<char>>,
    private_urls: Seq<Seq<char>>,
) -> Seq<char> {
    let public = if public_urls.len() > 0 {
        seq![spec_definition(spec_public_client_name(network), "public"@, public_urls)]
    } else {
        Seq::<Seq<char>>::empty()
    };
    let private = if private_urls.len() > 0 {
        seq![spec_definition(spec_private_client_name(network), "private"@, private_urls)]
    } else {
        Seq::<Seq<char>>::empty()
    };
    spec_join(public + private, "\u{1e}"@)
}

/// One line of the cache: `KEY="VALUE"`.
pub open spec fn spec_cache_line(entry: (Seq<char>, Seq<char>)) -> Seq<char> {
    entry.0 + "=\""@ + entry.1 + "\""@
}

/// The cache as it is handed to the helper: one line for each entry.
pub open spec fn spec_cache_text(entries: Seq<(Seq<char>, Seq<char>)>) -> Seq<char> {
    spec_join(Seq::new(entries.len(), |i: int| spec_cache_line(entries[i])), "\n"@)
}

/// The key and the value of a line of the cache: what stands before the
/// first `=`, and what stands behind it without the quotes around it. A line
/// without `=` holds nothing.
pub open spec fn spec_cache_entry(line: Seq<char>) -> Option<(Seq<char>, Seq<char>)> {
    let eq = spec_find_char(line, '=', 0);
    if eq < line.len() {
        Some((line.subrange(0, eq), spec_trim_char(line.subrange(eq + 1, line.len() as int), '"')))
    } else {
        None
    }
}

/// The value that the lines bind `name` to: that of the last line with this
/// key.
pub open spec fn spec_cache_value(lines: Seq<Seq<char>>, name: Seq<char>) -> Option<Seq<char>>
    decreases lines.len(),
{
    if lines.len() == 0 {
        None
    } else {
        match spec_cache_entry(lines.last()) {
            Some((k, v)) => if k == name {
                Some(v)
            } else {
                spec_cache_value(lines.drop_last(), name)
            },
            None => spec_cache_value(lines.drop_last(), name),
        }
    }
}

/// `entries` with `name` bound to `value`, if there is a value.
pub open spec fn spec_merge(
    entries: Seq<(Seq<char>, Seq<char>)>,
    name: Seq<char>,
    value: Option<Seq<char>>,
) -> Seq<(Seq<char>, Seq<char>)> {
    match value {
        Some(v) => put(entries, name, v),
        None => entries,
    }
}

/// An entry that the cache hands back as it was written: its key holds no
/// `=` and no line feed, and its value holds no line feed and neither begins
/// nor ends with a double quote.
pub open spec fn cache_safe(entry: (Seq<char>, Seq<char>)) -> bool {
    &&& forall|i: int| 0 <= i < entry.0.len() ==> entry.0[i] != '=' && entry.0[i] != '\n'
    &&& forall|i: int| 0 <= i < entry.1.len() ==> entry.1[i] != '\n'
    &&& entry.1.len() > 0 ==> entry.1[0] != '"' && entry.1.last() != '"'
}

/// The lines of the cache for `entries`.
pub open spec fn spec_cache_lines(entries: Seq<(Seq<char>, Seq<char>)>) -> Seq<Seq<char>> {
    Seq::new(entries.len(), |i: int| spec_cache_line(entries[i]))
}

/// The line of a safe entry is read as the entry.
pub proof fn lemma_cache_entry(entry: (Seq<char>, Seq<char>))
    requires
        cache_safe(entry),
    ensures
        spec_cache_entry(spec_cache_line(entry)) == Some(entry),
        spec_cache_line(entry).len() > 0,
        spec_cache_line(entry).last() == '"',
        forall|i: int|
            0 <= i < spec_cache_line(entry).len() ==> spec_cache_line(entry)[i] != '\n',
{
    reveal_strlit("=\"");
    reveal_strlit("\"");
    let (k, v) = entry;
    let line = spec_cache_line(entry);
    let n = k.len() as int;
    assert(line.len() == n + 2 + v.len() + 1);
    assert(line[n] == '=');
    assert(line[n + 1] == '"');
    assert forall|i: int| 0 <= i < n implies line[i] == k[i] by {}
    assert forall|i: int| 0 <= i < v.len() implies line[n + 2 + i] == v[i] by {}
    assert(line.last() == '"');
    lemma_find_char(line, '=', 0);
    let eq = spec_find_char(line, '=', 0);
    if eq > n {
        assert(line[n] != '=');
    }
    if eq < n {
        assert(line[eq] == k[eq]);
    }
    assert(eq == n);
    assert(line.subrange(0, eq) =~= k);
    let rest = line.subrange(eq + 1, line.len() as int);
    assert(rest.len() == v.len() + 2);
    assert(rest[0] == '"');
    assert(rest.last() == '"');
    assert forall|i: int| 0 <= i < v.len() implies rest[1 + i] == v[i] by {
        assert(rest[1 + i] == line[n + 2 + i]);
    }
    if v.len() == 0 {
        assert(rest[1] == '"');
        assert(spec_skip_char(rest, '"', 2) == 2);
        assert(spec_skip_char(rest, '"', 1) == 2);
        assert(spec_skip_char(rest, '"', 0) == 2);
        assert(spec_skip_char_back(rest, '"', 2, 2) == 2);
        assert(rest.subrange(2, 2) =~= v);
    } else {
        assert(rest[1] == v[0]);
        assert(spec_skip_char(rest, '"', 1) == 1);
        assert(spec_skip_char(rest, '"', 0) == 1);
        let end = rest.len() as int;
        assert(rest[end - 2] == v[v.len() - 1]);
        assert(spec_skip_char_back(rest, '"', 1, end - 1) == end - 1);
        assert(spec_skip_char_back(rest, '"', 1, end) == end - 1);
        assert(rest.subrange(1, end - 1) =~= v);
    }
    assert forall|i: int| 0 <= i < line.len() implies line[i] != '\n' by {
        if i < n {
            assert(line[i] == k[i]);
        } else if i >= n + 2 && i < n + 2 + v.len() {
            assert(line[i] == v[i - n - 2]);
        }
    }
}

/// The cache for safe entries is read as the lines it was written from.
pub proof fn lemma_cache_lines(entries: Seq<(Seq<char>, Seq<char>)>)
    requires
        forall|i: int| 0 <= i < entries.len() ==> cache_safe(#[trigger] entries[i]),
    ensures
        spec_lines(spec_cache_text(entries)) == spec_cache_lines(entries),
{
    reveal_strlit("\n");
    let lines = spec_cache_lines(entries);
    assert("\n"@ =~= seq!['\n']);
    assert(spec_cache_text(entries) == spec_join(lines, seq!['\n']));
    if entries.len() == 0 {
        let none = Seq::<char>::empty();
        assert(spec_join(lines, seq!['\n']) =~= none);
        assert(spec_split(none, '\n') =~= seq![none]);
        assert(spec_lines(none) =~= lines);
    } else {
        assert forall|i: int, j: int|
            0 <= i < lines.len() && 0 <= j < lines[i].len() implies #[trigger] lines[i][j]
            != '\n' by {
            lemma_cache_entry(entries[i]);
        }
        lemma_split_join(lines, '\n');
        let pieces = spec_split(spec_cache_text(entries), '\n');
        assert(pieces == lines);
        lemma_cache_entry(entries.last());
        assert(pieces.last() == spec_cache_line(entries.last()));
        let ended = Seq::new((pieces.len() - 1) as nat, |i: int| spec_strip_cr(pieces[i]));
        assert forall|i: int| 0 <= i < pieces.len() - 1 implies ended[i] == lines[i] by {
            lemma_cache_entry(entries[i]);
        }
        assert(ended.push(pieces.last()) =~= lines);
    }
}

/// Among the lines of safe entries in key order, a name is bound to what
/// the entries bind it to.
pub proof fn lemma_cache_value(entries: Seq<(Seq<char>, Seq<char>)>, name: Seq<char>)
    requires
        sorted_keys(entries),
        forall|i: int| 0 <= i < entries.len() ==> cache_safe(#[trigger] entries[i]),
    ensures
        spec_cache_value(spec_cache_lines(entries), name) == lookup(entries, name),
    decreases entries.len(),
{
    let lines = spec_cache_lines(entries);
    if entries.len() == 0 {
        crate::ordered_map::lemma_lookup_none(entries, name);
    } else {
        let front = entries.drop_last();
        lemma_cache_entry(entries.last());
        assert(lines.last() == spec_cache_line(entries.last()));
        assert(lines.drop_last() =~= spec_cache_lines(front));
        if entries.last().0 == name {
            crate::ordered_map::lemma_lookup_at(entries, entries.len() - 1);
        } else {
            assert forall|i: int| 0 <= i < front.len() implies cache_safe(#[trigger] front[i]) by {
                assert(front[i] == entries[i]);
            }
            assert(sorted_keys(front)) by {
                assert forall|i: int, j: int| 0 <= i < j < front.len() implies text_lt(
                    #[trigger] front[i].0,
                    #[trigger] front[j].0,
                ) by {
                    assert(front[i] == entries[i] && front[j] == entries[j]);
                }
            }
            lemma_cache_value(front, name);
            lemma_lookup_front(entries, name, 0);
            crate::ordered_map::lemma_first_with_key(entries, name, 0);
            crate::ordered_map::lemma_first_with_key(front, name, 0);
            let p = first_with_key(entries, name, 0);
            if p < entries.len() {
                assert(p < front.len());
                assert(front[p] == entries[p]);
            }
        }
    }
}

/// A cache that comes back as it was written changes nothing: where the
/// helper hands back the cache it was given, and the entries are safe, the
/// store holds after the exchange the OIDC entries it held before.
pub proof fn lemma_sync_again(entries: Seq<(Seq<char>, Seq<char>)>, provider: Network)
    requires
        sorted_keys(entries),
        forall|i: int| 0 <= i < entries.len() ==> cache_safe(#[trigger] entries[i]),
    ensures
        spec_merge(
            spec_merge(
                entries,
                spec_public_client_name(provider),
                spec_cache_value(
                    spec_lines(spec_cache_text(entries)),
                    spec_public_client_name(provider),
                ),
            ),
            spec_private_client_name(provider),
            spec_cache_value(
                spec_lines(spec_cache_text(entries)),
                spec_private_client_name(provider),
            ),
        ) == entries,
{
    let public = spec_public_client_name(provider);
    let private = spec_private_client_name(provider);
    lemma_cache_lines(entries);
    lemma_cache_value(entries, public);
    lemma_cache_value(entries, private);
    if lookup(entries, public) is Some {
        lemma_put_same(entries, public, lookup(entries, public)->0);
    }
    if lookup(entries, private) is Some {
        lemma_put_same(entries, private, lookup(entries, private)->0);
    }
}

/// What is handed to the helpers for one exchange.
#[derive(Debug)]
pub struct SyncPlan {
    pub provider: Network,
    pub public_client_name: String,
    pub private_client_name: String,
    /// The records that ask for the clients.
    pub secret_definitions: String,
    /// The content of the cache file before the exchange.
    pub cache: String,
    pub priv_key: String,
    pub broker_url: String,
    pub proxy_id: String,
    pub trusted_ca_certs: String,
    pub all_proxy: Option<String>,
}

/// What is to be done about the exchange with a provider.
#[derive(Debug)]
pub enum SyncStep {
    /// The exchange was planned before in this run.
    AlreadySynced,
    /// The site asks for no client of this provider.
    NothingToSync,
    /// The helpers are to be run with this plan.
    Run(SyncPlan),
}

pub fn parse_cache_line(line: &str) -> (entry: Option<(String, String)>)
    ensures
        match entry {
            Some((k, v)) => spec_cache_entry(line@) == Some((k@, v@)),
            None => spec_cache_entry(line@) is None,
        },
{
    proof {
        lemma_find_char(line@, '=', 0);
    }
    match find_char(line, '=') {
        Some(eq) => {
            let n = line.unicode_len();
            let key = String::from_str(line.substring_char(0, eq));
            let value = trim_char(line.substring_char(eq + 1, n), '"');
            Some((key, value))
        },
        None => None,
    }
}

/// The value that the cache `out` binds `name` to, if it binds it.
pub fn cache_value(out: &str, name: &str) -> (value: Option<String>)
    ensures
        match value {
            Some(v) => spec_cache_value(spec_lines(out@), name@) == Some(v@),
            None => spec_cache_value(spec_lines(out@), name@) is None,
        },
{
    let all = lines(out);
    let mut value: Option<String> = None;
    let mut i: usize = 0;
    let ghost texts = texts_of(all@);
    while i < all.len()
        invariant
            i <= all@.len(),
            texts == texts_of(all@),
            match value {
                Some(v) => spec_cache_value(texts.subrange(0, i as int), name@) == Some(v@),
                None => spec_cache_value(texts.subrange(0, i as int), name@) is None,
            },
        decreases all@.len() - i,
    {
        proof {
            let next = texts.subrange(0, i + 1);
            assert(next.drop_last() == texts.subrange(0, i as int));
            assert(next.last() == all@[i as int]@);
        }
        match parse_cache_line(all[i].as_str()) {
            Some((k, v)) => {
                if crate::utils::same_text(k.as_str(), name) {
                    value = Some(v);
                }
            },
            None => {},
        }
        i += 1;
    }
    proof {
        assert(texts.subrange(0, all@.len() as int) == texts);
    }
    value
}

impl OidcClients {
    pub fn new() -> (c: Self)
        ensures
            c.clients@.len() == 0,
    {
        OidcClients { clients: Vec::new() }
    }

    /// How the requests stand after the URLs `urls` were added to those of
    /// the public (or the private) client of `provider`. A provider that was
    /// not asked before comes last, not yet synced.
    pub open spec fn added(
        before: Seq<OidcClient>,
        after: Seq<OidcClient>,
        provider: Network,
        urls: Seq<Seq<char>>,
        private: bool,
    ) -> bool {
        let p = client_index(before, provider, 0);
        let (public_before, private_before, synced_before) = if p < before.len() {
            (
                texts_of(before[p].pub_redirect_paths@),
                texts_of(before[p].priv_redirect_urls@),
                before[p].synced,
            )
        } else {
            (Seq::<Seq<char>>::empty(), Seq::<Seq<char>>::empty(), false)
        };
        &&& after.len() == if p < before.len() {
            before.len()
        } else {
            before.len() + 1
        }
        &&& forall|j: int| 0 <= j < before.len() && j != p ==> after[j] == before[j]
        &&& after[p].provider == provider
        &&& after[p].synced == synced_before
        &&& texts_of(after[p].pub_redirect_paths@) == if private {
            public_before
        } else {
            public_before + urls
        }
        &&& texts_of(after[p].priv_redirect_urls@) == if private {
            private_before + urls
        } else {
            private_before
        }
    }

    fn find(&self, provider: Network) -> (p: usize)
        ensures
            p == client_index(self.clients@, provider, 0),
            p <= self.clients@.len(),
            p < self.clients@.len() ==> self.clients@[p as int].provider == provider,
    {
        let mut i: usize = 0;
        proof {
            lemma_client_index(self.clients@, provider, 0);
        }
        while i < self.clients.len()
            invariant
                i <= self.clients@.len(),
                client_index(self.clients@, provider, 0) == client_index(
                    self.clients@,
                    provider,
                    i as int,
                ),
            decreases self.clients@.len() - i,
        {
            if self.clients[i].provider == provider {
                return i;
            }
            i += 1;
        }
        i
    }

    fn add_urls(&mut self, provider: Network, urls: Vec<String>, private: bool)
        ensures
            Self::added(old(self).clients@, final(self).clients@, provider, texts_of(urls@), private),
    {
        let p = self.find(provider);
        let mut urls = urls;
        let ghost added = texts_of(urls@);
        let mut client = if p < self.clients.len() {
            self.clients.remove(p)
        } else {
            OidcClient {
                provider,
                pub_redirect_paths: Vec::new(),
                priv_redirect_urls: Vec::new(),
                synced: false,
            }
        };
        let ghost public_before = texts_of(client.pub_redirect_paths@);
        let ghost private_before = texts_of(client.priv_redirect_urls@);
        if private {
            client.priv_redirect_urls.append(&mut urls);
            assert(texts_of(client.priv_redirect_urls@) =~= private_before + added);
        } else {
            client.pub_redirect_paths.append(&mut urls);
            assert(texts_of(client.pub_redirect_paths@) =~= public_before + added);
        }
        self.clients.insert(p, client);
        proof {
            assert(public_before =~= if p < old(self).clients@.len() {
                texts_of(old(self).clients@[p as int].pub_redirect_paths@)
            } else {
                Seq::<Seq<char>>::empty()
            });
            assert(private_before =~= if p < old(self).clients@.len() {
                texts_of(old(self).clients@[p as int].priv_redirect_urls@)
            } else {
                Seq::<Seq<char>>::empty()
            });
        }
    }

    /// Asks `provider` for a public client that may redirect to `path`.
    pub fn add_public_redirect_path(&mut self, conf: &Config, provider: Network, path: &str) -> (client:
        PublicOidcClient)
        ensures
            client.provider == provider,
            client.client_id@ == conf.site_id@ + "-public"@,
            Self::added(
                old(self).clients@,
                final(self).clients@,
                provider,
                spec_redirect_urls(path@, conf.hostname),
                false,
            ),
    {
        let urls = redirect_urls_for_path(path, &conf.hostname);
        self.add_urls(provider, urls, false);
        PublicOidcClient { provider, client_id: concat2(conf.site_id.as_str(), "-public") }
    }

    /// Asks `provider` for a private client that may redirect to `path`.
    pub fn add_private_redirect_path(&mut self, conf: &Config, provider: Network, path: &str) -> (client:
        PrivateOidcClient)
        ensures
            client.provider == provider,
            client.client_id@ == conf.site_id@ + "-private"@,
            client.private_client_name@ == spec_private_client_name(provider),
            Self::added(
                old(self).clients@,
                final(self).clients@,
                provider,
                spec_redirect_urls(path@, conf.hostname),
                true,
            ),
    {
        let urls = redirect_urls_for_path(path, &conf.hostname);
        self.add_urls(provider, urls, true);
        PrivateOidcClient {
            provider,
            client_id: concat2(conf.site_id.as_str(), "-private"),
            private_client_name: concat2(provider.name().as_str(), "_client_secret"),
        }
    }

    /// Whether the exchange with `provider` was planned in this run.
    pub open spec fn spec_synced(clients: Seq<OidcClient>, provider: Network) -> bool {
        let p = client_index(clients, provider, 0);
        p < clients.len() && clients[p].synced
    }

    /// Plans the exchange with `provider`, once: the first call for a
    /// provider that was asked for a client hands out the plan, every later
    /// call says that the exchange was planned already. `broker_id` is the id
    /// of the provider's broker.
    pub fn begin_sync(
        &mut self,
        provider: Network,
        conf: &Config,
        local: &LocalConf,
        broker_id: &str,
    ) -> (step: SyncStep)
        requires
            local.wf(),
        ensures
            final(self).clients@.len() == old(self).clients@.len(),
            forall|j: int|
                0 <= j < old(self).clients@.len() && j != client_index(
                    old(self).clients@,
                    provider,
                    0,
                ) ==> final(self).clients@[j] == old(self).clients@[j],
            client_index(final(self).clients@, provider, 0) == client_index(
                old(self).clients@,
                provider,
                0,
            ),
            ({
                let p = client_index(old(self).clients@, provider, 0);
                if p >= old(self).clients@.len() {
                    step is NothingToSync
                } else {
                    let before = old(self).clients@[p];
                    let after = final(self).clients@[p];
                    &&& after.synced
                    &&& after.provider == provider
                    &&& after.pub_redirect_paths == before.pub_redirect_paths
                    &&& after.priv_redirect_urls == before.priv_redirect_urls
                    &&& if before.synced {
                        step is AlreadySynced
                    } else if before.pub_redirect_paths@.len() == 0
                        && before.priv_redirect_urls@.len() == 0 {
                        step is NothingToSync
                    } else {
                        &&& step matches SyncStep::Run(plan)
                        &&& plan.provider == provider
                        &&& plan.public_client_name@ == spec_public_client_name(provider)
                        &&& plan.private_client_name@ == spec_private_client_name(provider)
                        &&& plan.secret_definitions@ == spec_secret_definitions(
                            provider,
                            texts_of(before.pub_redirect_paths@),
                            texts_of(before.priv_redirect_urls@),
                        )
                        &&& plan.cache@ == spec_cache_text(local.oidc_entries())
                        &&& plan.proxy_id@ == conf.site_id@ + "."@ + broker_id@
                        &&& plan.priv_key@ == spec_join_path(
                            conf.path@,
                            "pki/"@ + conf.site_id@ + ".priv.pem"@,
                        )
                        &&& plan.trusted_ca_certs@ == spec_join_path(
                            conf.path@,
                            "trusted-ca-certs"@,
                        )
                        &&& plan.broker_url@ == spec_address(provider.spec_broker_url())
                        &&& plan.all_proxy == conf.https_proxy_url
                    }
                }
            }),
    {
        let p = self.find(provider);
        if p >= self.clients.len() {
            return SyncStep::NothingToSync;
        }
        let mut client = self.clients.remove(p);
        let was_synced = client.synced;
        client.synced = true;
        let step = if was_synced {
            SyncStep::AlreadySynced
        } else if client.pub_redirect_paths.len() == 0 && client.priv_redirect_urls.len() == 0 {
            SyncStep::NothingToSync
        } else {
            let network = provider.name();
            let public_client_name = concat2(network.as_str(), "_public_client");
            let private_client_name = concat2(network.as_str(), "_client_secret");
            let mut defs: Vec<String> = Vec::new();
            if client.pub_redirect_paths.len() > 0 {
                defs.push(
                    definition(public_client_name.as_str(), "public", &client.pub_redirect_paths),
                );
            }
            if client.priv_redirect_urls.len() > 0 {
                defs.push(
                    definition(private_client_name.as_str(), "private", &client.priv_redirect_urls),
                );
            }
            proof {
                let public_urls = texts_of(client.pub_redirect_paths@);
                let private_urls = texts_of(client.priv_redirect_urls@);
                let public = if public_urls.len() > 0 {
                    seq![spec_definition(spec_public_client_name(provider), "public"@, public_urls)]
                } else {
                    Seq::<Seq<char>>::empty()
                };
                let private = if private_urls.len() > 0 {
                    seq![
                        spec_definition(
                            spec_private_client_name(provider),
                            "private"@,
                            private_urls,
                        ),
                    ]
                } else {
                    Seq::<Seq<char>>::empty()
                };
                assert(texts_of(defs@) =~= public + private);
            }
            let fw_proxy = crate::services::forward_proxy::ForwardProxy::from_config(conf);
            let beam_proxy = BeamProxy::from_config(provider, broker_id, conf, &fw_proxy);
            SyncStep::Run(
                SyncPlan {
                    provider,
                    public_client_name,
                    private_client_name,
                    secret_definitions: join_texts(&defs, "\u{1e}"),
                    cache: cache_text(local),
                    priv_key: beam_proxy.priv_key,
                    broker_url: address(provider.broker_url().as_str()),
                    proxy_id: beam_proxy.proxy_id,
                    trusted_ca_certs: beam_proxy.trusted_ca_certs,
                    all_proxy: fw_proxy.https_proxy_url,
                },
            )
        };
        self.clients.insert(p, client);
        proof {
            lemma_same_index(old(self).clients@, self.clients@, provider, 0);
        }
        step
    }
}

proof fn lemma_same_index(a: Seq<OidcClient>, b: Seq<OidcClient>, provider: Network, i: int)
    requires
        a.len() == b.len(),
        0 <= i <= a.len(),
        forall|j: int| 0 <= j < a.len() ==> (#[trigger] a[j]).provider == b[j].provider,
    ensures
        client_index(a, provider, i) == client_index(b, provider, i),
    decreases a.len() - i,
{
    if i < a.len() {
        assert(a[i].provider == b[i].provider);
        lemma_same_index(a, b, provider, i + 1);
    }
}

fn definition(name: &str, kind: &str, urls: &Vec<String>) -> (def: String)
    ensures
        def@ == spec_definition(name@, kind@, texts_of(urls@)),
{
    let mut def = concat3("OIDC:", name, ":");
    def.append(kind);
    def.append(";");
    let joined = join_texts(urls, ",");
    def.append(joined.as_str());
    def
}

/// The cache file for the OIDC entries of the local store.
pub fn cache_text(local: &LocalConf) -> (cache: String)
    requires
        local.wf(),
    ensures
        cache@ == spec_cache_text(local.oidc_entries()),
{
    let mut cache_lines: Vec<String> = Vec::new();
    let ghost entries = local.oidc_entries();
    let ghost want = Seq::new(entries.len(), |i: int| spec_cache_line(entries[i]));
    match &local.oidc {
        Some(oidc) => {
            let mut i: usize = 0;
            while i < oidc.len()
                invariant
                    i <= oidc@.len(),
                    local.oidc == Some(*oidc),
                    entries == local.oidc_entries(),
                    want == Seq::new(entries.len(), |i: int| spec_cache_line(entries[i])),
                    texts_of(cache_lines@) == want.subrange(0, i as int),
                decreases oidc@.len() - i,
            {
                let mut line = concat2(oidc.key_at(i).as_str(), "=\"");
                line.append(oidc.value_at(i).as_str());
                line.append("\"");
                let ghost before = texts_of(cache_lines@);
                proof {
                    assert(entries[i as int] == (oidc@[i as int].0, oidc@[i as int].1@));
                    assert(line@ == spec_cache_line(entries[i as int]));
                }
                cache_lines.push(line);
                proof {
                    assert(texts_of(cache_lines@) == before.push(want[i as int]));
                    assert(want.subrange(0, i + 1) == want.subrange(0, i as int).push(
                        want[i as int],
                    ));
                }
                i += 1;
            }
            proof {
                assert(want.subrange(0, want.len() as int) == want);
            }
        },
        None => {
            assert(texts_of(cache_lines@) =~= want);
        },
    }
    join_texts(&cache_lines, "\n")
}

/// Takes what the helper wrote into the cache `out` into the local store:
/// the public and the private client of `provider`, as far as the cache
/// holds them. The store has an OIDC section afterwards.
pub fn finish_sync(local: &mut LocalConf, provider: Network, out: &str)
    requires
        old(local).wf(),
    ensures
        final(local).wf(),
        final(local).oidc is Some,
        final(local).oidc_entries() == spec_merge(
            spec_merge(
                old(local).oidc_entries(),
                spec_public_client_name(provider),
                spec_cache_value(spec_lines(out@), spec_public_client_name(provider)),
            ),
            spec_private_client_name(provider),
            spec_cache_value(spec_lines(out@), spec_private_client_name(provider)),
        ),
        final(local).seed == old(local).seed,
        final(local).basic_auth_users == old(local).basic_auth_users,
        final(local).generated_secrets == old(local).generated_secrets,
        old(local).env_ready() ==> final(local).env_ready(),
{
    let network = provider.name();
    let public_client_name = concat2(network.as_str(), "_public_client");
    let private_client_name = concat2(network.as_str(), "_client_secret");
    let public = cache_value(out, public_client_name.as_str());
    let private = cache_value(out, private_client_name.as_str());
    let mut oidc = match local.oidc.take() {
        Some(m) => m,
        None => OrderedMap::new(),
    };
    assert(texts(oidc@) =~= old(local).oidc_entries());
    match public {
        Some(v) => {
            proof {
                lemma_texts_put(oidc@, public_client_name@, v);
            }
            oidc.insert(public_client_name, v);
        },
        None => {},
    }
    match private {
        Some(v) => {
            proof {
                lemma_texts_put(oidc@, private_client_name@, v);
            }
            oidc.insert(private_client_name, v);
        },
        None => {},
    }
    local.oidc = Some(oidc);
    proof {
        if old(local).env_ready() {
            lemma_client_names_ident(provider);
            let holds = |e: (Seq<char>, Seq<char>)| crate::config::is_ident(e.0);
            let start = old(local).oidc_entries();
            assert forall|i: int| 0 <= i < start.len() implies holds(#[trigger] start[i]) by {
                assert(crate::config::is_ident(start[i].0));
            }
            let mid = spec_merge(
                start,
                spec_public_client_name(provider),
                spec_cache_value(spec_lines(out@), spec_public_client_name(provider)),
            );
            if public is Some {
                crate::ordered_map::lemma_put_preserves(
                    start,
                    spec_public_client_name(provider),
                    public->0@,
                    holds,
                );
            }
            if private is Some {
                crate::ordered_map::lemma_put_preserves(
                    mid,
                    spec_private_client_name(provider),
                    private->0@,
                    holds,
                );
            }
            let end = local.oidc_entries();
            assert forall|i: int| 0 <= i < end.len() implies crate::config::is_ident(
                #[trigger] end[i].0,
            ) by {
                assert(holds(end[i]));
            }
            assert(local.secrets() == old(local).secrets());
        }
    }
}

/// The names of the clients of a network are identifiers.
proof fn lemma_client_names_ident(network: Network)
    ensures
        crate::config::is_ident(spec_public_client_name(network)),
        crate::config::is_ident(spec_private_client_name(network)),
{
    reveal_strlit("ccp");
    reveal_strlit("eric");
    reveal_strlit("gbn");
    reveal_strlit("_public_client");
    reveal_strlit("_client_secret");
    let a = spec_public_client_name(network);
    let b = spec_private_client_name(network);
    let n = network.spec_name();
    assert forall|i: int| 0 <= i < a.len() implies crate::config::is_ident_char(
        #[trigger] a[i],
    ) by {
        if i < n.len() {
            assert(a[i] == n[i]);
        } else {
            assert(a[i] == "_public_client"@[i - n.len()]);
        }
    }
    assert forall|i: int| 0 <= i < b.len() implies crate::config::is_ident_char(
        #[trigger] b[i],
    ) by {
        if i < n.len() {
            assert(b[i] == n[i]);
        } else {
            assert(b[i] == "_client_secret"@[i - n.len()]);
        }
    }
}

} // verus!
