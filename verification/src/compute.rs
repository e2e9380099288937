//! The paginated, zone-grouped instance listing.
//!
//! A listing response is a JSON object whose `items` field maps zone names to
//! zone objects, each optionally holding an `instances` array; responses are
//! chained through an optional `nextPageToken`. The traversal walks that
//! chain, flattens the zones of every page in order, decodes every raw
//! instance document, and aggregates per-record decode failures into one
//! all-or-nothing outcome: the listing either returns the complete, fully
//! decoded record set or a single error.

use vstd::prelude::*;
use vstd::string::StringExecFns;

use crate::http::HttpClient;
use crate::json::{Entry, EntryV, Json, JsonV, entry_views, get_field, get_str_field};
use crate::records::{DecodeError, InstanceV, decode_result};

pub use crate::records::Instance;

verus! {

/// A source of bearer tokens for a project.
pub trait TokenSource: Sized {
    /// The token (or error message) that this source yields for `project`.
    /// Implementations outside the verifier leave it at the default, about
    /// which nothing is known.
    open spec fn token(&self, project: Seq<char>) -> Result<Seq<char>, Seq<char>> {
        vstd::pervasive::arbitrary()
    }

    /// Obtains a bearer token for `project`.
    fn get_token(&self, project: &str) -> (r: Result<String, String>)
        ensures
            match r {
                Ok(t) => self.token(project@) == Ok::<Seq<char>, Seq<char>>(t@),
                Err(e) => self.token(project@) == Err::<Seq<char>, Seq<char>>(e@),
            },
    ;
}

/// A token source that always yields the same fixed token.
pub struct MockTokenSource {
    pub mock_token: String,
}

impl TokenSource for MockTokenSource {
    open spec fn token(&self, project: Seq<char>) -> Result<Seq<char>, Seq<char>> {
        Ok(self.mock_token@)
    }

    fn get_token(&self, project: &str) -> (r: Result<String, String>) {
        Ok(self.mock_token.clone())
    }
}

/// A token source that always fails with the same message.
pub struct FailingTokenSource {
    pub message: String,
}

impl TokenSource for FailingTokenSource {
    open spec fn token(&self, project: Seq<char>) -> Result<Seq<char>, Seq<char>> {
        Err(self.message@)
    }

    fn get_token(&self, project: &str) -> (r: Result<String, String>) {
        Err(self.message.clone())
    }
}

/// Why a listing call failed.
#[derive(Debug)]
pub enum ComputeError {
    /// Token acquisition failed; the traversal was never started.
    Credential(String),
    /// The transport failed while fetching a page.
    Transport(String),
    /// A page carried no usable `items` object.
    NoItems,
    /// At least one raw instance document failed to decode; no partial
    /// listing is returned.
    Parse,
    /// The continuation-token chain did not end within the page bound.
    PageLimit,
}

/// Mathematical value of a [`ComputeError`].
#[verifier::ext_equal]
pub enum ComputeErrorV {
    Credential(Seq<char>),
    Transport(Seq<char>),
    NoItems,
    Parse,
    PageLimit,
}

impl View for ComputeError {
    type V = ComputeErrorV;

    open spec fn view(&self) -> ComputeErrorV {
        match self {
            ComputeError::Credential(m) => ComputeErrorV::Credential(m@),
            ComputeError::Transport(m) => ComputeErrorV::Transport(m@),
            ComputeError::NoItems => ComputeErrorV::NoItems,
            ComputeError::Parse => ComputeErrorV::Parse,
            ComputeError::PageLimit => ComputeErrorV::PageLimit,
        }
    }
}

/// The message of an error value.
pub open spec fn error_text(e: ComputeErrorV) -> Seq<char> {
    match e {
        ComputeErrorV::Credential(m) => m,
        ComputeErrorV::Transport(m) => m,
        ComputeErrorV::NoItems => "No items in response"@,
        ComputeErrorV::Parse => "Error parsing instances"@,
        ComputeErrorV::PageLimit => "Page limit exceeded"@,
    }
}

impl ComputeError {
    /// The human-readable message of this error.
    pub fn message(&self) -> (r: String)
        ensures
            r@ == error_text(self@),
    {
        match self {
            ComputeError::Credential(m) => m.clone(),
            ComputeError::Transport(m) => m.clone(),
            ComputeError::NoItems => "No items in response".to_owned(),
            ComputeError::Parse => "Error parsing instances".to_owned(),
            ComputeError::PageLimit => "Page limit exceeded".to_owned(),
        }
    }

    /// Whether this is a transport-level failure (a network error or a page
    /// without an `items` object), as opposed to a credential or decode
    /// failure.
    pub fn is_transport(&self) -> (r: bool)
        ensures
            r == (self@ is Transport || self@ is NoItems),
    {
        match self {
            ComputeError::Transport(_) => true,
            ComputeError::NoItems => true,
            _ => false,
        }
    }
}

/// The mathematical value of an optional string.
pub open spec fn opt_view(o: Option<String>) -> Option<Seq<char>> {
    match o {
        Some(s) => Some(s@),
        None => None,
    }
}

/// The mathematical values of a vector of instances.
pub open spec fn instance_views(v: Seq<Instance>) -> Seq<InstanceV> {
    v.map(|i: int, inst: Instance| inst@)
}

/// The mathematical values of a vector of strings.
pub open spec fn string_views(v: Seq<String>) -> Seq<Seq<char>> {
    v.map(|i: int, s: String| s@)
}

/// The aggregated-instances listing endpoint of `project`.
pub open spec fn aggregated_url(project: Seq<char>) -> Seq<char> {
    "https://compute.googleapis.com/compute/v1/projects/"@ + project + "/aggregated/instances"@
}

/// The zone listing endpoint of `project`.
pub open spec fn zones_url(project: Seq<char>) -> Seq<char> {
    "https://compute.googleapis.com/compute/v1/projects/"@ + project + "/zones"@
}

/// The URL of one listing page: the aggregated endpoint with an optional
/// (already encoded) server-side filter and an optional continuation token.
pub open spec fn page_url(
    project: Seq<char>,
    filter: Option<Seq<char>>,
    token: Option<Seq<char>>,
) -> Seq<char> {
    let base = aggregated_url(project);
    match (filter, token) {
        (None, None) => base,
        (Some(f), None) => base + "?filter="@ + f,
        (None, Some(t)) => base + "?pageToken="@ + t,
        (Some(f), Some(t)) => base + "?filter="@ + f + "&pageToken="@ + t,
    }
}

/// Builds the URL of one listing page.
fn build_page_url(project: &str, filter: &Option<String>, token: &Option<String>) -> (r: String)
    ensures
        r@ == page_url(project@, opt_view(*filter), opt_view(*token)),
{
    let mut url = String::new();
    url.append("https://compute.googleapis.com/compute/v1/projects/");
    url.append(project);
    url.append("/aggregated/instances");
    let mut has_query = false;
    match filter {
        Some(f) => {
            url.append("?filter=");
            url.append(f.as_str());
            has_query = true;
        },
        None => {},
    }
    match token {
        Some(t) => {
            if has_query {
                url.append("&pageToken=");
            } else {
                url.append("?pageToken=");
            }
            url.append(t.as_str());
        },
        None => {},
    }
    proof {
        assert(url@ =~= page_url(project@, opt_view(*filter), opt_view(*token)));
    }
    url
}

/// The zone map of a page: its `items` object, if the page has one.
pub open spec fn page_items(page: JsonV) -> Option<Seq<EntryV>> {
    match get_field(page, "items"@) {
        Some(JsonV::Obj(zones)) => Some(zones),
        _ => None,
    }
}

/// The raw instance documents of one zone object: its `instances` array, or
/// nothing when the zone carries none.
pub open spec fn zone_instances(zone_value: JsonV) -> Seq<JsonV> {
    match get_field(zone_value, "instances"@) {
        Some(JsonV::Arr(items)) => items,
        _ => Seq::empty(),
    }
}

/// All raw instance documents of a page, in zone order and array order
/// within each zone.
pub open spec fn flatten_zones(zones: Seq<EntryV>) -> Seq<JsonV>
    decreases zones.len(),
{
    if zones.len() == 0 {
        Seq::empty()
    } else {
        zone_instances(zones[0].value) + flatten_zones(zones.skip(1))
    }
}

/// The records of the documents that decode, in order.
pub open spec fn decoded_ok(docs: Seq<JsonV>) -> Seq<InstanceV>
    decreases docs.len(),
{
    if docs.len() == 0 {
        Seq::empty()
    } else {
        match decode_result(docs[0]) {
            Ok(iv) => seq![iv] + decoded_ok(docs.skip(1)),
            Err(_) => decoded_ok(docs.skip(1)),
        }
    }
}

/// Whether any of the documents fails to decode.
pub open spec fn any_decode_error(docs: Seq<JsonV>) -> bool
    decreases docs.len(),
{
    if docs.len() == 0 {
        false
    } else {
        decode_result(docs[0]) is Err || any_decode_error(docs.skip(1))
    }
}

/// The continuation token of a page, if its `nextPageToken` is a string.
pub open spec fn next_token(page: JsonV) -> Option<Seq<char>> {
    match get_field(page, "nextPageToken"@) {
        Some(JsonV::Str(t)) => Some(t),
        _ => None,
    }
}

/// The complete traversal, as a function of the transport: starting from
/// `page_token`, fetch at most `fuel` further pages along the continuation
/// chain, flatten and decode every page, and aggregate. Any transport
/// failure, missing `items` object, or decode failure anywhere makes the
/// whole outcome that single error.
pub open spec fn traverse<H: HttpClient>(
    client: H,
    project: Seq<char>,
    auth: Seq<char>,
    filter: Option<Seq<char>>,
    page_token: Option<Seq<char>>,
    fuel: nat,
) -> Result<Seq<InstanceV>, ComputeErrorV>
    decreases fuel,
{
    if fuel == 0 {
        Err(ComputeErrorV::PageLimit)
    } else {
        match client.response(auth, page_url(project, filter, page_token)) {
            Err(m) => Err(ComputeErrorV::Transport(m)),
            Ok(page) => match page_items(page) {
                None => Err(ComputeErrorV::NoItems),
                Some(zones) => {
                    let docs = flatten_zones(zones);
                    if any_decode_error(docs) {
                        Err(ComputeErrorV::Parse)
                    } else {
                        match next_token(page) {
                            None => Ok(decoded_ok(docs)),
                            Some(t) => match traverse(
                                client,
                                project,
                                auth,
                                filter,
                                Some(t),
                                (fuel - 1) as nat,
                            ) {
                                Ok(rest) => Ok(decoded_ok(docs) + rest),
                                Err(e) => Err(e),
                            },
                        }
                    }
                },
            },
        }
    }
}

/// The page bound of the executable traversal: it gives up with
/// [`ComputeError::PageLimit`] only after this many pages.
pub open spec fn max_pages() -> nat {
    usize::MAX as nat
}

/// Decoding distributes over concatenation of document sequences.
proof fn lemma_decode_concat(a: Seq<JsonV>, b: Seq<JsonV>)
    ensures
        decoded_ok(a + b) == decoded_ok(a) + decoded_ok(b),
        any_decode_error(a + b) == (any_decode_error(a) || any_decode_error(b)),
    decreases a.len(),
{
    if a.len() == 0 {
        assert(a + b =~= b);
        assert(decoded_ok(a) + decoded_ok(b) =~= decoded_ok(b));
    } else {
        assert((a + b).skip(1) =~= a.skip(1) + b);
        lemma_decode_concat(a.skip(1), b);
        match decode_result(a[0]) {
            Ok(iv) => {
                assert(seq![iv] + (decoded_ok(a.skip(1)) + decoded_ok(b)) =~= (seq![iv]
                    + decoded_ok(a.skip(1))) + decoded_ok(b));
            },
            Err(_) => {},
        }
    }
}

/// Decoding a one-document sequence.
proof fn lemma_decode_singleton(d: JsonV)
    ensures
        decoded_ok(seq![d]) == (match decode_result(d) {
            Ok(iv) => seq![iv],
            Err(_) => Seq::<InstanceV>::empty(),
        }),
        any_decode_error(seq![d]) == (decode_result(d) is Err),
{
    reveal_with_fuel(decoded_ok, 2);
    reveal_with_fuel(any_decode_error, 2);
    assert(seq![d].len() == 1);
    assert(seq![d][0] == d);
    assert(seq![d].skip(1) =~= Seq::<JsonV>::empty());
    match decode_result(d) {
        Ok(iv) => {
            assert(seq![iv] + Seq::<InstanceV>::empty() =~= seq![iv]);
        },
        Err(_) => {},
    }
}

/// Flattening one more zone appends that zone's documents.
proof fn lemma_flatten_take_step(zones: Seq<EntryV>, i: int)
    requires
        0 <= i < zones.len(),
    ensures
        flatten_zones(zones.take(i + 1)) == flatten_zones(zones.take(i)) + zone_instances(
            zones[i].value,
        ),
    decreases i,
{
    reveal_with_fuel(flatten_zones, 2);
    if i == 0 {
        assert(zones.take(1).skip(1) =~= Seq::<EntryV>::empty());
        assert(flatten_zones(zones.take(0)) =~= Seq::<JsonV>::empty());
        assert(zone_instances(zones[0].value) + Seq::<JsonV>::empty() =~= zone_instances(
            zones[0].value,
        ));
        assert(zones.take(1)[0] == zones[0]);
    } else {
        lemma_flatten_take_step(zones.skip(1), i - 1);
        assert(zones.take(i + 1)[0] == zones[0]);
        assert(zones.take(i + 1).skip(1) =~= zones.skip(1).take(i));
        assert(zones.take(i).skip(1) =~= zones.skip(1).take(i - 1));
        assert(zones.take(i)[0] == zones[0]);
        assert(zones.skip(1)[i - 1] == zones[i]);
        assert(zone_instances(zones[0].value) + (flatten_zones(zones.skip(1).take(i - 1))
            + zone_instances(zones[i].value)) =~= (zone_instances(zones[0].value) + flatten_zones(
            zones.skip(1).take(i - 1),
        )) + zone_instances(zones[i].value));
    }
}

/// Decoding one more document extends the decoded prefix.
proof fn lemma_decode_take_step(docs: Seq<JsonV>, j: int)
    requires
        0 <= j < docs.len(),
    ensures
        decoded_ok(docs.take(j + 1)) == decoded_ok(docs.take(j)) + (match decode_result(docs[j]) {
            Ok(iv) => seq![iv],
            Err(_) => Seq::<InstanceV>::empty(),
        }),
        any_decode_error(docs.take(j + 1)) == (any_decode_error(docs.take(j)) || decode_result(
            docs[j],
        ) is Err),
{
    assert(docs.take(j + 1) =~= docs.take(j) + seq![docs[j]]);
    lemma_decode_concat(docs.take(j), seq![docs[j]]);
    lemma_decode_singleton(docs[j]);
}

/// Converts one zone object into per-document decode outcomes, in array
/// order. A zone without an `instances` array contributes nothing.
pub fn object_to_instance_list(zone_value: &Json) -> (r: Vec<Result<Instance, DecodeError>>)
    ensures
        r@.len() == zone_instances(zone_value@).len(),
        forall|j: int|
            0 <= j < r@.len() ==> result_view(#[trigger] r@[j]) == decode_result(
                zone_instances(zone_value@)[j],
            ),
{
    let docs: &Vec<Json> = match zone_value.get("instances") {
        Some(v) => match v.as_array() {
            Some(items) => items,
            None => {
                return Vec::new();
            },
        },
        None => {
            return Vec::new();
        },
    };
    let mut out: Vec<Result<Instance, DecodeError>> = Vec::new();
    let mut i: usize = 0;
    while i < docs.len()
        invariant
            i <= docs.len(),
            out@.len() == i,
            zone_instances(zone_value@) == crate::json::elem_views(docs@),
            forall|j: int|
                0 <= j < i ==> result_view(#[trigger] out@[j]) == decode_result(
                    crate::json::elem_views(docs@)[j],
                ),
        decreases docs.len() - i,
    {
        out.push(Instance::from_json(&docs[i]));
        i = i + 1;
    }
    out
}

/// The mathematical value of one decode outcome.
pub open spec fn result_view(r: Result<Instance, DecodeError>) -> Result<InstanceV, DecodeError> {
    match r {
        Ok(inst) => Ok(inst@),
        Err(e) => Err(e),
    }
}

/// Configuration of a listing service: the project listed, the transport,
/// and the credential source.
pub struct ComputeConfig<H: HttpClient, T: TokenSource> {
    pub project: String,
    pub client: H,
    pub token_source: T,
}

/// A cursor over the pages of one aggregated listing. Each `next` call
/// fetches one page, flattens and decodes it, and follows the continuation
/// token; after an error or the last page the cursor is finished for good.
pub struct InstancesPageIterator<'a, H: HttpClient, T: TokenSource> {
    pub config: &'a ComputeConfig<H, T>,
    pub filter: Option<String>,
    pub page_token: Option<String>,
    pub auth_token: String,
    pub finished: bool,
}

impl<'a, H: HttpClient, T: TokenSource> InstancesPageIterator<'a, H, T> {
    /// A cursor at the first page of the unfiltered listing.
    pub fn new(config: &'a ComputeConfig<H, T>, auth_token: String) -> (r: Self)
        ensures
            r.config == config,
            r.filter is None,
            r.page_token is None,
            r.auth_token == auth_token,
            !r.finished,
    {
        Self { config, filter: None, page_token: None, auth_token, finished: false }
    }

    /// A cursor at the first page of a listing narrowed by an already
    /// URL-encoded server-side filter expression.
    pub fn new_filtered(config: &'a ComputeConfig<H, T>, auth_token: String, filter: String) -> (r:
        Self)
        ensures
            r.config == config,
            r.filter == Some(filter),
            r.page_token is None,
            r.auth_token == auth_token,
            !r.finished,
    {
        Self { config, filter: Some(filter), page_token: None, auth_token, finished: false }
    }

    /// The outcome of the page fetch this cursor performs next.
    pub open spec fn current_response(&self) -> Result<JsonV, Seq<char>> {
        self.config.client.response(
            self.auth_token@,
            page_url(self.config.project@, opt_view(self.filter), opt_view(self.page_token)),
        )
    }

    /// Fetches and decodes one page. Yields the page's records, or the error
    /// that ended the traversal; `None` once the cursor is finished.
    #[verifier::loop_isolation(false)]
    pub fn next(&mut self) -> (r: Option<Result<Vec<Instance>, ComputeError>>)
        ensures
            final(self).config == old(self).config,
            final(self).filter == old(self).filter,
            final(self).auth_token == old(self).auth_token,
            old(self).finished ==> r is None && *final(self) == *old(self),
            !old(self).finished ==> r is Some,
            !old(self).finished ==> match old(self).current_response() {
                Err(m) => {
                    &&& r matches Some(Err(ComputeError::Transport(msg))) && msg@ == m
                    &&& final(self).finished
                },
                Ok(page) => match page_items(page) {
                    None => {
                        &&& r matches Some(Err(e)) && e@ == ComputeErrorV::NoItems
                        &&& final(self).finished
                    },
                    Some(zones) => {
                        if any_decode_error(flatten_zones(zones)) {
                            &&& r matches Some(Err(e)) && e@ == ComputeErrorV::Parse
                            &&& final(self).finished
                        } else {
                            &&& r matches Some(Ok(insts)) && instance_views(insts@) == decoded_ok(
                                flatten_zones(zones),
                            )
                            &&& opt_view(final(self).page_token) == next_token(page)
                            &&& final(self).finished == (next_token(page) is None)
                        }
                    },
                },
            },
    {
        if self.finished {
            return None;
        }
        let url = build_page_url(self.config.project.as_str(), &self.filter, &self.page_token);
        let resp: Json = match self.config.client.get(self.auth_token.as_str(), url.as_str()) {
            Ok(doc) => doc,
            Err(e) => {
                self.finished = true;
                return Some(Err(ComputeError::Transport(e)));
            },
        };
        let ghost page = resp@;
        let zones: &Vec<Entry> = match resp.get("items") {
            Some(v) => match v.as_object() {
                Some(z) => z,
                None => {
                    self.finished = true;
                    return Some(Err(ComputeError::NoItems));
                },
            },
            None => {
                self.finished = true;
                return Some(Err(ComputeError::NoItems));
            },
        };
        let ghost zonesv = entry_views(zones@);
        proof {
            assert(page_items(page) == Some(zonesv));
            assert(zonesv.take(0) =~= Seq::<EntryV>::empty());
        }
        let mut insts: Vec<Instance> = Vec::new();
        let mut bad = false;
        let mut zi: usize = 0;
        proof {
            assert(instance_views(insts@) =~= Seq::<InstanceV>::empty());
        }
        while zi < zones.len()
            invariant
                zi <= zones.len(),
                bad == any_decode_error(flatten_zones(zonesv.take(zi as int))),
                !bad ==> instance_views(insts@) == decoded_ok(
                    flatten_zones(zonesv.take(zi as int)),
                ),
            decreases zones.len() - zi,
        {
            let results = object_to_instance_list(&zones[zi].value);
            let ghost docs_z = zone_instances(zonesv[zi as int].value);
            proof {
                assert(zonesv[zi as int].value == zones@[zi as int].value@);
                assert(docs_z.take(0) =~= Seq::<JsonV>::empty());
            }
            let mut rj: usize = 0;
            while rj < results.len()
                invariant
                    rj <= results.len(),
                    results@.len() == docs_z.len(),
                    forall|j: int|
                        0 <= j < results@.len() ==> result_view(#[trigger] results@[j])
                            == decode_result(docs_z[j]),
                    bad == (any_decode_error(flatten_zones(zonesv.take(zi as int)))
                        || any_decode_error(docs_z.take(rj as int))),
                    !bad ==> instance_views(insts@) == decoded_ok(
                        flatten_zones(zonesv.take(zi as int)),
                    ) + decoded_ok(docs_z.take(rj as int)),
                decreases results.len() - rj,
            {
                proof {
                    lemma_decode_take_step(docs_z, rj as int);
                }
                let ghost pre = insts@;
                match &results[rj] {
                    Ok(inst) => {
                        insts.push(inst.clone());
                        proof {
                            assert(instance_views(insts@) =~= instance_views(pre) + seq![inst@]);
                            if !bad {
                                assert(decoded_ok(flatten_zones(zonesv.take(zi as int)))
                                    + decoded_ok(docs_z.take(rj as int + 1)) =~= (decoded_ok(
                                    flatten_zones(zonesv.take(zi as int)),
                                ) + decoded_ok(docs_z.take(rj as int))) + seq![inst@]);
                            }
                        }
                    },
                    Err(_) => {
                        bad = true;
                    },
                }
                rj = rj + 1;
            }
            proof {
                assert(docs_z.take(results@.len() as int) =~= docs_z);
                lemma_flatten_take_step(zonesv, zi as int);
                lemma_decode_concat(flatten_zones(zonesv.take(zi as int)), docs_z);
            }
            zi = zi + 1;
        }
        proof {
            assert(zonesv.take(zones@.len() as int) =~= zonesv);
        }
        if bad {
            self.finished = true;
            return Some(Err(ComputeError::Parse));
        }
        self.page_token = match resp.get("nextPageToken") {
            Some(v) => match v.as_str() {
                Some(t) => Some(t.clone()),
                None => {
                    self.finished = true;
                    None
                },
            },
            None => {
                self.finished = true;
                None
            },
        };
        Some(Ok(insts))
    }
}

/// Drives a cursor to exhaustion, concatenating the records of every page in
/// page order; the result is exactly what the mathematical traversal yields.
#[verifier::loop_isolation(false)]
fn run_traversal<'a, H: HttpClient, T: TokenSource>(
    iter: &mut InstancesPageIterator<'a, H, T>,
) -> (r: Result<Vec<Instance>, ComputeError>)
    requires
        !old(iter).finished,
        old(iter).page_token is None,
    ensures
        match traverse(
            old(iter).config.client,
            old(iter).config.project@,
            old(iter).auth_token@,
            opt_view(old(iter).filter),
            None,
            max_pages(),
        ) {
            Ok(ivs) => r matches Ok(v) && instance_views(v@) == ivs,
            Err(ev) => r matches Err(e) && e@ == ev,
        },
{
    let ghost client = iter.config.client;
    let ghost project = iter.config.project@;
    let ghost auth = iter.auth_token@;
    let ghost filt = opt_view(iter.filter);
    let mut out: Vec<Instance> = Vec::new();
    let mut fuel: usize = usize::MAX;
    proof {
        assert(instance_views(out@) =~= Seq::<InstanceV>::empty());
        match traverse(client, project, auth, filt, None, max_pages()) {
            Ok(rest) => {
                assert(instance_views(out@) + rest =~= rest);
            },
            Err(_) => {},
        }
    }
    while !iter.finished
        invariant
            iter.config == old(iter).config,
            iter.filter == old(iter).filter,
            iter.auth_token == old(iter).auth_token,
            fuel as nat <= max_pages(),
            !iter.finished ==> match traverse(
                client,
                project,
                auth,
                filt,
                opt_view(iter.page_token),
                fuel as nat,
            ) {
                Ok(rest) => traverse(client, project, auth, filt, None, max_pages()) matches Ok(all)
                    && all == instance_views(out@) + rest,
                Err(e) => traverse(client, project, auth, filt, None, max_pages()) == Err::<
                    Seq<InstanceV>,
                    ComputeErrorV,
                >(e),
            },
            iter.finished ==> traverse(client, project, auth, filt, None, max_pages()) == Ok::<
                Seq<InstanceV>,
                ComputeErrorV,
            >(instance_views(out@)),
        decreases fuel,
    {
        if fuel == 0 {
            return Err(ComputeError::PageLimit);
        }
        fuel = fuel - 1;
        match iter.next() {
            None => {
                proof {
                    assert(false);
                }
                return Err(ComputeError::PageLimit);
            },
            Some(Err(e)) => {
                return Err(e);
            },
            Some(Ok(mut page)) => {
                let ghost pagev = page@;
                let ghost preout = out@;
                out.append(&mut page);
                proof {
                    assert(instance_views(out@) =~= instance_views(preout) + instance_views(
                        pagev,
                    ));
                    match traverse(client, project, auth, filt, opt_view(iter.page_token),
                        fuel as nat) {
                        Ok(rest2) => {
                            assert(instance_views(preout) + (instance_views(pagev) + rest2)
                                =~= (instance_views(preout) + instance_views(pagev)) + rest2);
                        },
                        Err(_) => {},
                    }
                }
            },
        }
    }
    Ok(out)
}

/// The server-side filter expression that narrows a listing to instances
/// whose names contain `pattern`.
pub open spec fn filter_expr(pattern: Seq<char>) -> Seq<char> {
    "(name eq .*"@ + pattern + ".*)"@
}

/// Builds the filter expression for `pattern`.
fn build_filter_expr(pattern: &str) -> (r: String)
    ensures
        r@ == filter_expr(pattern@),
{
    let mut out = String::new();
    out.append("(name eq .*");
    out.append(pattern);
    out.append(".*)");
    proof {
        assert(out@ =~= filter_expr(pattern@));
    }
    out
}

/// The percent-encoding of a query string, as the `urlencoding` crate
/// computes it.
pub uninterp spec fn url_encoded(s: Seq<char>) -> Seq<char>;

/// Relies on urlencoding::encode: percent-encodes every byte except
/// alphanumerics and `-`, `_`, `.`, `~`. The result depends on the input
/// characters alone.
#[verifier::external_body]
fn encode_query(s: &str) -> (r: String)
    ensures
        r@ == url_encoded(s@),
{
    urlencoding::encode(s).into_owned()
}

/// The `items` array of a zone-listing response, if it has one.
pub open spec fn zone_items(doc: JsonV) -> Option<Seq<JsonV>> {
    match get_field(doc, "items"@) {
        Some(JsonV::Arr(items)) => Some(items),
        _ => None,
    }
}

/// Whether every item carries a string `name`.
pub open spec fn all_named(items: Seq<JsonV>) -> bool {
    forall|i: int| 0 <= i < items.len() ==> get_str_field(#[trigger] items[i], "name"@) is Some
}

/// The `name` of every item, in order.
pub open spec fn zone_names(items: Seq<JsonV>) -> Seq<Seq<char>> {
    items.map(|i: int, d: JsonV| get_str_field(d, "name"@)->0)
}

/// The listing service: lists the instances or zones of one project through
/// an HTTP transport and a credential source.
pub struct Compute<H: HttpClient, T: TokenSource> {
    pub config: ComputeConfig<H, T>,
}

impl<H: HttpClient, T: TokenSource> Compute<H, T> {
    /// A listing service over `config`.
    pub fn new(config: ComputeConfig<H, T>) -> (r: Self)
        ensures
            r.config == config,
    {
        Self { config }
    }

    /// Lists every instance of the project: obtains one token, walks the
    /// whole continuation chain, and returns the complete decoded record set,
    /// or the single error that ended the traversal. Partial listings are
    /// never returned.
    pub fn list_all_instances(&self) -> (r: Result<Vec<Instance>, ComputeError>)
        ensures
            match self.config.token_source.token(self.config.project@) {
                Err(m) => r matches Err(e) && e@ == ComputeErrorV::Credential(m),
                Ok(auth) => match traverse(
                    self.config.client,
                    self.config.project@,
                    auth,
                    None,
                    None,
                    max_pages(),
                ) {
                    Ok(ivs) => r matches Ok(v) && instance_views(v@) == ivs,
                    Err(ev) => r matches Err(e) && e@ == ev,
                },
            },
    {
        let auth_token = match self.config.token_source.get_token(self.config.project.as_str()) {
            Ok(t) => t,
            Err(m) => {
                return Err(ComputeError::Credential(m));
            },
        };
        let mut iter = InstancesPageIterator::new(&self.config, auth_token);
        run_traversal(&mut iter)
    }

    /// Lists the instances whose names contain `instance_name`: the same
    /// traversal, narrowed server-side through the URL-encoded filter
    /// expression `(name eq .*instance_name.*)`.
    pub fn list_instances(&self, instance_name: &str) -> (r: Result<Vec<Instance>, ComputeError>)
        ensures
            match self.config.token_source.token(self.config.project@) {
                Err(m) => r matches Err(e) && e@ == ComputeErrorV::Credential(m),
                Ok(auth) => match traverse(
                    self.config.client,
                    self.config.project@,
                    auth,
                    Some(url_encoded(filter_expr(instance_name@))),
                    None,
                    max_pages(),
                ) {
                    Ok(ivs) => r matches Ok(v) && instance_views(v@) == ivs,
                    Err(ev) => r matches Err(e) && e@ == ev,
                },
            },
    {
        let auth_token = match self.config.token_source.get_token(self.config.project.as_str()) {
            Ok(t) => t,
            Err(m) => {
                return Err(ComputeError::Credential(m));
            },
        };
        let filter = build_filter_expr(instance_name);
        let encoded = encode_query(filter.as_str());
        let mut iter = InstancesPageIterator::new_filtered(&self.config, auth_token, encoded);
        run_traversal(&mut iter)
    }

    /// Lists the zone names of the project.
    #[verifier::loop_isolation(false)]
    pub fn list_zones(&self) -> (r: Result<Vec<String>, ComputeError>)
        ensures
            match self.config.token_source.token(self.config.project@) {
                Err(m) => r matches Err(e) && e@ == ComputeErrorV::Credential(m),
                Ok(auth) => match self.config.client.response(auth, zones_url(
                    self.config.project@,
                )) {
                    Err(m) => r matches Err(e) && e@ == ComputeErrorV::Transport(m),
                    Ok(doc) => match zone_items(doc) {
                        None => r matches Err(e) && e@ == ComputeErrorV::NoItems,
                        Some(items) => if all_named(items) {
                            r matches Ok(v) && string_views(v@) == zone_names(items)
                        } else {
                            r matches Err(e) && e@ == ComputeErrorV::Parse
                        },
                    },
                },
            },
    {
        let token = match self.config.token_source.get_token(self.config.project.as_str()) {
            Ok(t) => t,
            Err(m) => {
                return Err(ComputeError::Credential(m));
            },
        };
        let mut url = String::new();
        url.append("https://compute.googleapis.com/compute/v1/projects/");
        url.append(self.config.project.as_str());
        url.append("/zones");
        proof {
            assert(url@ =~= zones_url(self.config.project@));
        }
        let resp: Json = match self.config.client.get(token.as_str(), url.as_str()) {
            Ok(doc) => doc,
            Err(m) => {
                return Err(ComputeError::Transport(m));
            },
        };
        let items: &Vec<Json> = match resp.get("items") {
            Some(v) => match v.as_array() {
                Some(a) => a,
                None => {
                    return Err(ComputeError::NoItems);
                },
            },
            None => {
                return Err(ComputeError::NoItems);
            },
        };
        let ghost itemsv = crate::json::elem_views(items@);
        let mut out: Vec<String> = Vec::new();
        let mut i: usize = 0;
        while i < items.len()
            invariant
                i <= items.len(),
                out@.len() == i,
                forall|j: int|
                    0 <= j < i ==> get_str_field(#[trigger] itemsv[j], "name"@) is Some,
                forall|j: int|
                    0 <= j < i ==> (#[trigger] out@[j])@ == get_str_field(itemsv[j], "name"@)->0,
            decreases items.len() - i,
        {
            proof {
                assert(itemsv[i as int] == items@[i as int]@);
            }
            match items[i].get("name") {
                Some(v) => match v.as_str() {
                    Some(s) => {
                        out.push(s.clone());
                    },
                    None => {
                        proof {
                            assert(!all_named(itemsv));
                        }
                        return Err(ComputeError::Parse);
                    },
                },
                None => {
                    proof {
                        assert(!all_named(itemsv));
                    }
                    return Err(ComputeError::Parse);
                },
            }
            i = i + 1;
        }
        proof {
            assert(string_views(out@) =~= zone_names(itemsv));
        }
        Ok(out)
    }
}

/// The continuation token with which page `i` of a chain is fetched: none
/// for the first page, and the previous page's token after that.
pub open spec fn chain_token(pages: Seq<JsonV>, i: int) -> Option<Seq<char>> {
    if i == 0 {
        None
    } else {
        next_token(pages[i - 1])
    }
}

/// All records of a chain of pages from page `k` on, in page order.
pub open spec fn chain_instances_from(pages: Seq<JsonV>, k: int) -> Seq<InstanceV>
    decreases pages.len() - k,
{
    if k < 0 || k >= pages.len() {
        Seq::empty()
    } else {
        decoded_ok(flatten_zones(page_items(pages[k])->0)) + chain_instances_from(pages, k + 1)
    }
}

/// Pagination terminates and keeps page order: over a chain of pages whose
/// last page carries no continuation token, where every page has its `items`
/// object, every record decodes, and the transport serves page `i` for the
/// URL built from page `i-1`'s token, the traversal returns exactly the
/// records of those pages, concatenated in page order, within a fuel of one
/// fetch per page.
pub proof fn lemma_traversal_spans_pages<H: HttpClient>(
    client: H,
    project: Seq<char>,
    auth: Seq<char>,
    filter: Option<Seq<char>>,
    pages: Seq<JsonV>,
    fuel: nat,
)
    requires
        pages.len() > 0,
        fuel >= pages.len(),
        forall|i: int|
            0 <= i < pages.len() ==> client.response(
                auth,
                page_url(project, filter, chain_token(pages, i)),
            ) == Ok::<JsonV, Seq<char>>(#[trigger] pages[i]),
        forall|i: int| 0 <= i < pages.len() - 1 ==> next_token(#[trigger] pages[i]) is Some,
        next_token(pages[pages.len() - 1]) is None,
        forall|i: int| 0 <= i < pages.len() ==> page_items(#[trigger] pages[i]) is Some,
        forall|i: int|
            0 <= i < pages.len() ==> !any_decode_error(
                flatten_zones(page_items(#[trigger] pages[i])->0),
            ),
    ensures
        traverse(client, project, auth, filter, None, fuel) == Ok::<Seq<InstanceV>, ComputeErrorV>(
            chain_instances_from(pages, 0),
        ),
{
    lemma_traversal_spans_pages_from(client, project, auth, filter, pages, 0, fuel);
}

proof fn lemma_traversal_spans_pages_from<H: HttpClient>(
    client: H,
    project: Seq<char>,
    auth: Seq<char>,
    filter: Option<Seq<char>>,
    pages: Seq<JsonV>,
    k: int,
    fuel: nat,
)
    requires
        0 <= k < pages.len(),
        fuel >= pages.len() - k,
        forall|i: int|
            0 <= i < pages.len() ==> client.response(
                auth,
                page_url(project, filter, chain_token(pages, i)),
            ) == Ok::<JsonV, Seq<char>>(#[trigger] pages[i]),
        forall|i: int| 0 <= i < pages.len() - 1 ==> next_token(#[trigger] pages[i]) is Some,
        next_token(pages[pages.len() - 1]) is None,
        forall|i: int| 0 <= i < pages.len() ==> page_items(#[trigger] pages[i]) is Some,
        forall|i: int|
            0 <= i < pages.len() ==> !any_decode_error(
                flatten_zones(page_items(#[trigger] pages[i])->0),
            ),
    ensures
        traverse(client, project, auth, filter, chain_token(pages, k), fuel) == Ok::<
            Seq<InstanceV>,
            ComputeErrorV,
        >(chain_instances_from(pages, k)),
    decreases pages.len() - k,
{
    let docs = flatten_zones(page_items(pages[k])->0);
    if k == pages.len() - 1 {
        assert(chain_instances_from(pages, k + 1) =~= Seq::<InstanceV>::empty());
        assert(decoded_ok(docs) + Seq::<InstanceV>::empty() =~= decoded_ok(docs));
    } else {
        lemma_traversal_spans_pages_from(
            client,
            project,
            auth,
            filter,
            pages,
            k + 1,
            (fuel - 1) as nat,
        );
    }
}

/// Partial-failure aggregation: when any record of the page fails to decode,
/// the whole listing is the single aggregate error, never a partial record
/// set.
pub proof fn lemma_partial_failure_aggregates<H: HttpClient>(
    client: H,
    project: Seq<char>,
    auth: Seq<char>,
    filter: Option<Seq<char>>,
    page: JsonV,
    fuel: nat,
)
    requires
        fuel > 0,
        client.response(auth, page_url(project, filter, None)) == Ok::<JsonV, Seq<char>>(page),
        page_items(page) is Some,
        any_decode_error(flatten_zones(page_items(page)->0)),
    ensures
        traverse(client, project, auth, filter, None, fuel) == Err::<
            Seq<InstanceV>,
            ComputeErrorV,
        >(ComputeErrorV::Parse),
{
}

/// A document sequence has a decode error exactly when one of its documents
/// fails to decode.
pub proof fn lemma_any_decode_error_iff(docs: Seq<JsonV>)
    ensures
        any_decode_error(docs) <==> exists|i: int|
            0 <= i < docs.len() && decode_result(#[trigger] docs[i]) is Err,
    decreases docs.len(),
{
    if docs.len() > 0 {
        lemma_any_decode_error_iff(docs.skip(1));
        if any_decode_error(docs.skip(1)) {
            let i = choose|i: int|
                0 <= i < docs.skip(1).len() && decode_result(#[trigger] docs.skip(1)[i]) is Err;
            assert(docs.skip(1)[i] == docs[i + 1]);
        }
        if exists|i: int| 0 <= i < docs.len() && decode_result(#[trigger] docs[i]) is Err {
            let i = choose|i: int| 0 <= i < docs.len() && decode_result(#[trigger] docs[i]) is Err;
            if i > 0 {
                assert(docs.skip(1)[i - 1] == docs[i]);
            }
        }
    }
}

} // verus!
