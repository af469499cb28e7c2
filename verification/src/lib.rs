//! Resolves a location string (a bare path, a shorthand such as
//! `github.com/owner/repo`, an object-storage host, or a URL) into a URL with
//! an explicit scheme, and selects the getter registered for that scheme.

use vstd::hash_map::StringHashMap;
use vstd::prelude::*;

pub mod detectors;
pub mod error;
pub mod forced;
pub mod getters;
pub mod paths;
pub mod text;
pub mod uri;

pub use crate::error::{Error, ErrorView};
pub use crate::forced::get_forced_proto;

use crate::detectors::{file_detection, file_source};
use crate::forced::{
    forced_split, forced_token, is_forced, lemma_forced_is_split, lemma_forced_split_is_forced,
    no_line_feed, unforced,
};
use crate::detectors::wants_base;
use crate::paths::{absolute, base_view, path_cleaned, path_is_absolute, path_joined};
use crate::text::appended;
use crate::uri::{parsed_uri, Uri, UriView};

verus! {

/// What a detector answers, as contracts speak of it: no match, a canonical
/// source, or a structural error.
pub type Detection = Result<Option<Seq<char>>, ErrorView>;

/// The answer of a detector by the characters of its strings.
pub open spec fn detection_view(r: Result<Option<String>, Error>) -> Detection {
    match r {
        Ok(Some(found)) => Ok(Some(found@)),
        Ok(None) => Ok(None),
        Err(e) => Err(e@),
    }
}

/// Recognises one shape of source and turns it into a canonical one.
pub trait Detector {
    /// Whether `detect` may answer `out` on `path`. The detectors of this
    /// library say exactly what they answer; a detector that leaves this
    /// as it is may answer anything.
    open spec fn yields(&self, path: Seq<char>, out: Detection) -> bool {
        true
    }

    /// `Ok(None)` where `path` is not of this detector's shape, the canonical
    /// source where it is, an error where it is of that shape and malformed.
    fn detect(&self, path: &str) -> (r: Result<Option<String>, Error>)
        ensures
            self.yields(path@, detection_view(r)),
    ;
}

/// Unpacks what a getter has fetched.
pub trait Decompressor {
}

/// A request that has no source yet.
#[derive(Default, Debug)]
pub struct NoSrc;

/// The source of a request.
#[derive(Default, Debug)]
pub struct Src(String);

/// A request that has no destination yet.
#[derive(Default, Debug)]
pub struct NoDest;

/// The destination of a request.
#[derive(Default, Debug)]
pub struct Dest(String);

impl View for Src {
    type V = Seq<char>;

    closed spec fn view(&self) -> Seq<char> {
        self.0@
    }
}

impl View for Dest {
    type V = Seq<char>;

    closed spec fn view(&self) -> Seq<char> {
        self.0@
    }
}

/// A detector in a registry: one of the two that every registry starts
/// with, or one that the caller added.
pub enum Registered<X> {
    /// The detector of local paths.
    Local(detectors::File),
    /// The detector of object-storage hosts.
    Storage(detectors::S3),
    /// A detector that the caller added.
    Added(X),
}

impl<X: Detector> Registered<X> {
    /// Whether the detector may answer `out` on `path` where relative paths
    /// start at `base`. Only the detector of local paths looks at the base
    /// directory.
    pub open spec fn answers(&self, base: Option<Seq<char>>, path: Seq<char>, out: Detection) -> bool {
        match self {
            Registered::Local(_) => out == file_detection(base, path),
            Registered::Storage(d) => d.yields(path, out),
            Registered::Added(d) => d.yields(path, out),
        }
    }

    /// Asks the detector about `path`.
    pub fn ask(&self, path: &str, base: Option<&str>) -> (r: Result<Option<String>, Error>)
        ensures
            self.answers(base_view(base), path@, detection_view(r)),
    {
        match self {
            Registered::Local(d) => d.detect_from(path, base),
            Registered::Storage(d) => d.detect(path),
            Registered::Added(d) => d.detect(path),
        }
    }
}

/// The chain stops at position `k` with the answer `out`: the detectors
/// before `k` found no match, and the one at `k` gave the first answer that
/// is a match or an error; or, where `k` is the length of the chain, none
/// matched.
pub open spec fn chain_stops_at<X: Detector>(
    detectors: Seq<Registered<X>>,
    base: Option<Seq<char>>,
    raw: Seq<char>,
    out: Detection,
    k: int,
) -> bool {
    &&& 0 <= k <= detectors.len()
    &&& forall|i: int| 0 <= i < k ==> (#[trigger] detectors[i]).answers(base, raw, Ok(None))
    &&& if k < detectors.len() {
        out != Ok::<Option<Seq<char>>, ErrorView>(None) && detectors[k].answers(base, raw, out)
    } else {
        out == Ok::<Option<Seq<char>>, ErrorView>(None)
    }
}

/// The detectors, asked in order, may answer `out` on `raw`: the first match
/// or error wins, and the detectors behind it are not asked.
pub open spec fn chain_yields<X: Detector>(
    detectors: Seq<Registered<X>>,
    base: Option<Seq<char>>,
    raw: Seq<char>,
    out: Detection,
) -> bool {
    exists|k: int| chain_stops_at(detectors, base, raw, out, k)
}

/// The resolved source for `raw`, given the answer `out` of the detector
/// chain. A forced protocol on `raw` replaces the one that the detector may
/// have put on its answer.
pub open spec fn resolution(raw: Seq<char>, out: Detection) -> Result<Seq<char>, ErrorView> {
    match out {
        Err(e) => Err(e),
        Ok(None) => Err(ErrorView::GetterNotFound(raw)),
        Ok(Some(found)) => Ok(
            match forced_token(raw) {
                Some(token) => token + seq!['+'] + unforced(found),
                None => found,
            },
        ),
    }
}

/// Whether resolving `raw` with these detectors may end in `r`. A source
/// that is a URL already is its own resolution, whatever the detectors are.
pub open spec fn resolves<X: Detector>(
    detectors: Seq<Registered<X>>,
    base: Option<Seq<char>>,
    raw: Seq<char>,
    r: Result<Seq<char>, ErrorView>,
) -> bool {
    if parsed_uri(raw) is Some {
        r == Ok::<Seq<char>, ErrorView>(raw)
    } else {
        exists|out: Detection|
            chain_yields(detectors, base, raw, out) && r == resolution(raw, out)
    }
}

/// The scheme that selects the getter for a resolved source, and the source
/// that the getter is handed: the forced protocol where there is one, else
/// the scheme of the URL; and the source without its forced protocol.
pub open spec fn selection(resolved: Seq<char>) -> Result<(Seq<char>, Seq<char>), ErrorView> {
    match parsed_uri(unforced(resolved)) {
        None => Err(ErrorView::UrlParseError),
        Some(uri) => Ok((selecting_scheme(forced_token(resolved), uri), unforced(resolved))),
    }
}

/// The scheme that selects the getter for a parsed source: the forced
/// protocol where there is one, else the scheme of the URL.
pub open spec fn selecting_scheme(forced: Option<Seq<char>>, uri: UriView) -> Seq<char> {
    match forced {
        Some(token) => token,
        None => uri.scheme,
    }
}

/// The selection for a scheme and a source among the registered schemes.
pub open spec fn registered_selection(
    registered: Set<Seq<char>>,
    scheme: Seq<char>,
    source: Seq<char>,
) -> Result<(Seq<char>, Seq<char>), ErrorView> {
    if registered.contains(scheme) {
        Ok((scheme, source))
    } else {
        Err(ErrorView::GetterNotFound(scheme))
    }
}

/// The selection for a resolved source among the registered schemes: a
/// scheme without a getter is an error.
pub open spec fn dispatch(registered: Set<Seq<char>>, resolved: Seq<char>) -> Result<
    (Seq<char>, Seq<char>),
    ErrorView,
> {
    match selection(resolved) {
        Err(e) => Err(e),
        Ok((scheme, source)) => registered_selection(registered, scheme, source),
    }
}

/// A source that is a URL resolves to itself and to nothing else, whatever
/// detectors are registered and whatever they would answer.
pub proof fn lemma_url_resolves_to_itself<X: Detector>(
    detectors: Seq<Registered<X>>,
    base: Option<Seq<char>>,
    raw: Seq<char>,
    r: Result<Seq<char>, ErrorView>,
)
    requires
        parsed_uri(raw) is Some,
    ensures
        resolves(detectors, base, raw, r) <==> r == Ok::<Seq<char>, ErrorView>(raw),
{
}

/// Where the first detector of a chain answers `first` on a source and
/// nothing else, and `first` is a match or an error, the chain answers
/// `first` and nothing else: the detectors behind it have no say.
pub proof fn lemma_first_detector_decides<X: Detector>(
    detectors: Seq<Registered<X>>,
    base: Option<Seq<char>>,
    raw: Seq<char>,
    first: Detection,
    out: Detection,
)
    requires
        detectors.len() > 0,
        forall|o: Detection| detectors[0].answers(base, raw, o) <==> o == first,
        first != Ok::<Option<Seq<char>>, ErrorView>(None),
    ensures
        chain_yields(detectors, base, raw, out) <==> out == first,
{
    if chain_yields(detectors, base, raw, out) {
        let k = choose|k: int| chain_stops_at(detectors, base, raw, out, k);
        if k > 0 {
            assert(detectors[0].answers(base, raw, Ok(None)));
        }
    }
    if out == first {
        assert(chain_stops_at(detectors, base, raw, out, 0));
    }
}

/// Where every detector of a chain finds no match, and can answer nothing
/// else, the chain finds no match.
pub proof fn lemma_chain_without_match<X: Detector>(
    detectors: Seq<Registered<X>>,
    base: Option<Seq<char>>,
    raw: Seq<char>,
    out: Detection,
)
    requires
        forall|i: int, o: Detection|
            0 <= i < detectors.len() ==> ((#[trigger] detectors[i].answers(base, raw, o)) <==> o == Ok::<
                Option<Seq<char>>,
                ErrorView,
            >(None)),
    ensures
        chain_yields(detectors, base, raw, out) <==> out == Ok::<Option<Seq<char>>, ErrorView>(None),
{
    if chain_yields(detectors, base, raw, out) {
        let k = choose|k: int| chain_stops_at(detectors, base, raw, out, k);
        if k < detectors.len() {
            assert(detectors[k].answers(base, raw, out));
        }
    }
    if out == Ok::<Option<Seq<char>>, ErrorView>(None) {
        assert(chain_stops_at(detectors, base, raw, out, detectors.len() as int));
    }
}

/// Detectors that answer each source in one way resolve each source in one
/// way: the detectors of this library do, so for them `detect` is a
/// function of the request.
pub proof fn lemma_resolution_is_unique<X: Detector>(
    detectors: Seq<Registered<X>>,
    base: Option<Seq<char>>,
    raw: Seq<char>,
    r1: Result<Seq<char>, ErrorView>,
    r2: Result<Seq<char>, ErrorView>,
)
    requires
        forall|i: int, o1: Detection, o2: Detection|
            0 <= i < detectors.len() && #[trigger] detectors[i].answers(base, raw, o1)
                && #[trigger] detectors[i].answers(base, raw, o2) ==> o1 == o2,
        resolves(detectors, base, raw, r1),
        resolves(detectors, base, raw, r2),
    ensures
        r1 == r2,
{
    if parsed_uri(raw) is None {
        let out1 = choose|out: Detection|
            chain_yields(detectors, base, raw, out) && r1 == resolution(raw, out);
        let out2 = choose|out: Detection|
            chain_yields(detectors, base, raw, out) && r2 == resolution(raw, out);
        let k1 = choose|k: int| chain_stops_at(detectors, base, raw, out1, k);
        let k2 = choose|k: int| chain_stops_at(detectors, base, raw, out2, k);
        if k1 < k2 {
            assert(detectors[k1].answers(base, raw, Ok(None)));
            assert(detectors[k1].answers(base, raw, out1));
        } else if k2 < k1 {
            assert(detectors[k2].answers(base, raw, Ok(None)));
            assert(detectors[k2].answers(base, raw, out2));
        } else if k1 < detectors.len() {
            assert(detectors[k1].answers(base, raw, out1));
            assert(detectors[k1].answers(base, raw, out2));
        }
    }
}

/// A local path resolves to a `file://` source and to nothing else: an
/// absolute path to `file://` and the cleaned path, a relative one to
/// `file://` and the cleaned join of base directory and path. This holds of
/// every chain that begins with the detector of local paths, for every
/// source that is no URL and carries no forced protocol; a relative path
/// needs the base directory to be known.
pub proof fn lemma_local_path_resolves_to_file_source<X: Detector>(
    detectors: Seq<Registered<X>>,
    base: Option<Seq<char>>,
    raw: Seq<char>,
    r: Result<Seq<char>, ErrorView>,
)
    requires
        detectors.len() > 0,
        detectors[0] is Local,
        parsed_uri(raw) is None,
        forced_token(raw) is None,
        path_is_absolute(raw) || base is Some,
    ensures
        resolves(detectors, base, raw, r) <==> r == Ok::<Seq<char>, ErrorView>(
            file_source(
                if path_is_absolute(raw) {
                    path_cleaned(raw)
                } else {
                    path_cleaned(path_joined(base->0, raw))
                },
            ),
        ),
{
    let whole = if path_is_absolute(raw) {
        path_cleaned(raw)
    } else {
        path_cleaned(path_joined(base->0, raw))
    };
    let first = file_detection(base, raw);
    assert(absolute(raw, base) == Ok::<Seq<char>, ErrorView>(whole));
    assert(first == Ok::<Option<Seq<char>>, ErrorView>(Some(file_source(whole))));
    assert(resolution(raw, first) == Ok::<Seq<char>, ErrorView>(file_source(whole)));
    assert forall|o: Detection| detectors[0].answers(base, raw, o) <==> o == first by {}
    assert forall|out: Detection| chain_yields(detectors, base, raw, out) <==> out == first by {
        lemma_first_detector_decides(detectors, base, raw, first, out);
    }
    if resolves(detectors, base, raw, r) {
        let out = choose|out: Detection| chain_yields(detectors, base, raw, out) && r == resolution(
            raw,
            out,
        );
        assert(out == first);
        assert(r == resolution(raw, first));
    }
    if r == Ok::<Seq<char>, ErrorView>(file_source(whole)) {
        assert(chain_yields(detectors, base, raw, first) && r == resolution(raw, first));
    }
}

/// A forced protocol on the input wins: where the input carries one and a
/// detector matches, the resolved source carries the protocol of the input
/// before the detector's answer stripped of its own, and that protocol
/// selects the getter, not the scheme of the URL. The answer of the detector
/// must run on one line behind its own forced protocol, as the grammar of a
/// forced source asks.
pub proof fn lemma_forced_protocol_of_input_wins(raw: Seq<char>, found: Seq<char>)
    requires
        forced_token(raw) is Some,
        no_line_feed(unforced(found)),
    ensures
        resolution(raw, Ok(Some(found))) matches Ok(resolved) && forced_split(resolved) == (
            forced_token(raw),
            unforced(found),
        ),
        parsed_uri(unforced(found)) is Some ==> (resolution(raw, Ok(Some(found))) matches Ok(
            resolved,
        ) && selection(resolved) == Ok::<(Seq<char>, Seq<char>), ErrorView>(
            (forced_token(raw)->0, unforced(found)),
        )),
{
    lemma_forced_split_is_forced(raw);
    let token = forced_token(raw)->0;
    let resolved = token + seq!['+'] + unforced(found);
    assert(is_forced(resolved, token, unforced(found)));
    lemma_forced_is_split(resolved, token, unforced(found));
}

/// Without a forced protocol on the input, the resolved source is the
/// answer of the detector, with the forced protocol that the detector may
/// have put on it.
pub proof fn lemma_forced_protocol_of_detector_is_kept(raw: Seq<char>, found: Seq<char>)
    requires
        forced_token(raw) is None,
    ensures
        resolution(raw, Ok(Some(found))) == Ok::<Seq<char>, ErrorView>(found),
{
}

/// A scheme without a registered getter is refused: the dispatch fails with
/// the scheme, and never succeeds.
pub proof fn lemma_unregistered_scheme_is_refused(
    registered: Set<Seq<char>>,
    resolved: Seq<char>,
    scheme: Seq<char>,
    source: Seq<char>,
)
    requires
        selection(resolved) == Ok::<(Seq<char>, Seq<char>), ErrorView>((scheme, source)),
        !registered.contains(scheme),
    ensures
        dispatch(registered, resolved) == Err::<(Seq<char>, Seq<char>), ErrorView>(
            ErrorView::GetterNotFound(scheme),
        ),
{
}

/// The result of a resolution by the characters of its strings.
pub open spec fn resolved_view(r: Result<String, Error>) -> Result<Seq<char>, ErrorView> {
    match r {
        Ok(resolved) => Ok(resolved@),
        Err(e) => Err(e@),
    }
}

/// Whether a detector's answer is that the source is not of its shape.
pub fn is_no_match(found: &Result<Option<String>, Error>) -> (yes: bool)
    ensures
        yes == (detection_view(*found) == Ok::<Option<Seq<char>>, ErrorView>(None)),
{
    match found {
        Ok(None) => true,
        _ => false,
    }
}

/// The resolved source for `raw`, given what the detector chain answered.
pub fn resolve(raw: &str, found: Result<Option<String>, Error>) -> (r: Result<String, Error>)
    ensures
        resolved_view(r) == resolution(raw@, detection_view(found)),
{
    match found {
        Err(e) => Err(e),
        Ok(None) => Err(Error::GetterNotFound(raw.to_owned())),
        Ok(Some(found)) => {
            let (is_force, _) = get_forced_proto(raw);
            let (forced_proto, src) = get_forced_proto(found.as_str());
            proof {
                reveal_strlit("+");
                assert("+"@ =~= seq!['+']);
            }
            match is_force {
                Some(token) => {
                    let head = appended(token, "+");
                    Ok(appended(head.as_str(), src))
                },
                None => match forced_proto {
                    Some(token) => {
                        proof {
                            lemma_forced_split_is_forced(found@);
                        }
                        let head = appended(token, "+");
                        Ok(appended(head.as_str(), src))
                    },
                    None => Ok(src.to_owned()),
                },
            }
        },
    }
}

/// The scheme that selects the getter for the parsed source `uri`: `forced`
/// where the source carried a forced protocol, else the scheme of the URL.
pub fn scheme_for(forced: Option<&str>, uri: Uri) -> (scheme: String)
    ensures
        scheme@ == selecting_scheme(
            match forced {
                Some(token) => Some(token@),
                None => None,
            },
            uri@,
        ),
{
    match forced {
        Some(token) => token.to_owned(),
        None => uri.scheme,
    }
}

/// The getter selected for a request, and what it is to be called with.
pub struct Dispatch<'a, G> {
    /// The scheme under which the getter is registered.
    pub scheme: String,
    /// The getter.
    pub getter: &'a G,
    /// The destination path.
    pub dest: &'a str,
    /// The source, without a forced protocol.
    pub source: String,
}

/// A request in the making: source, destination, the detectors in the order
/// in which they are asked, and the getters by scheme.
#[verifier::reject_recursive_types(G)]
pub struct RequestBuilder<S, D, G, X> {
    src: S,
    dest: D,
    detectors: Vec<Registered<X>>,
    getters: StringHashMap<G>,
}

impl<S, D, G, X: Detector> RequestBuilder<S, D, G, X> {
    /// The detectors, in the order in which they are asked.
    pub closed spec fn detectors(&self) -> Seq<Registered<X>> {
        self.detectors@
    }

    /// The getters by the scheme they are registered under.
    pub closed spec fn getters(&self) -> Map<Seq<char>, G> {
        self.getters@
    }

    /// The source, or the mark that there is none yet.
    pub closed spec fn src_state(&self) -> S {
        self.src
    }

    /// The destination, or the mark that there is none yet.
    pub closed spec fn dest_state(&self) -> D {
        self.dest
    }

    /// Registers `getter` under `name`, in place of a getter registered under
    /// that name before.
    pub fn add_getter(self, name: &str, getter: G) -> (b: Self)
        ensures
            b.getters() == self.getters().insert(name@, getter),
            b.detectors() == self.detectors(),
            b.src_state() == self.src_state(),
            b.dest_state() == self.dest_state(),
    {
        let mut getters = self.getters;
        getters.insert(name.to_owned(), getter);
        RequestBuilder { src: self.src, dest: self.dest, detectors: self.detectors, getters }
    }

    /// Appends `detector` to the chain: it is asked after all that are there.
    pub fn add_detector(self, detector: X) -> (b: Self)
        ensures
            b.detectors() == self.detectors().push(Registered::Added(detector)),
            b.getters() == self.getters(),
            b.src_state() == self.src_state(),
            b.dest_state() == self.dest_state(),
    {
        let mut detectors = self.detectors;
        detectors.push(Registered::Added(detector));
        RequestBuilder { src: self.src, dest: self.dest, detectors, getters: self.getters }
    }
}

impl<G, X: Detector> RequestBuilder<NoSrc, NoDest, G, X> {
    /// A request with the detectors and getters that every request starts
    /// with: local paths, then object-storage hosts; `file` under the scheme
    /// `file` and `s3` under the scheme `s3`.
    pub fn builder(file: G, s3: G) -> (b: Self)
        ensures
            b.detectors().len() == 2,
            b.detectors()[0] is Local,
            b.detectors()[1] is Storage,
            b.getters() == Map::<Seq<char>, G>::empty().insert("file"@, file).insert("s3"@, s3),
    {
        let mut getters: StringHashMap<G> = StringHashMap::new();
        getters.insert("file".to_owned(), file);
        getters.insert("s3".to_owned(), s3);
        let mut detectors: Vec<Registered<X>> = Vec::new();
        detectors.push(Registered::Local(detectors::File));
        detectors.push(Registered::Storage(detectors::S3));
        RequestBuilder { src: NoSrc, dest: NoDest, detectors, getters }
    }
}

impl<D, G, X: Detector> RequestBuilder<NoSrc, D, G, X> {
    /// Sets the source.
    pub fn src(self, src: String) -> (b: RequestBuilder<Src, D, G, X>)
        ensures
            b.source() == src@,
            b.dest_state() == self.dest_state(),
            b.detectors() == self.detectors(),
            b.getters() == self.getters(),
    {
        RequestBuilder {
            src: Src(src),
            dest: self.dest,
            detectors: self.detectors,
            getters: self.getters,
        }
    }
}

impl<S, G, X: Detector> RequestBuilder<S, NoDest, G, X> {
    /// Sets the destination.
    pub fn dest(self, dest: String) -> (b: RequestBuilder<S, Dest, G, X>)
        ensures
            b.destination() == dest@,
            b.src_state() == self.src_state(),
            b.detectors() == self.detectors(),
            b.getters() == self.getters(),
    {
        RequestBuilder {
            src: self.src,
            dest: Dest(dest),
            detectors: self.detectors,
            getters: self.getters,
        }
    }
}

impl<D, G, X: Detector> RequestBuilder<Src, D, G, X> {
    /// The source.
    pub open spec fn source(&self) -> Seq<char> {
        self.src_state()@
    }
}

impl<S, G, X: Detector> RequestBuilder<S, Dest, G, X> {
    /// The destination.
    pub open spec fn destination(&self) -> Seq<char> {
        self.dest_state()@
    }
}

impl<G, X: Detector> RequestBuilder<Src, Dest, G, X> {
    /// Whether `r` is the selection for the resolved source `resolved`: the
    /// getter registered under the selecting scheme, with the destination of
    /// the request and the source without its forced protocol; or the error
    /// of the dispatch.
    pub open spec fn selects(&self, resolved: Seq<char>, r: Result<Dispatch<'_, G>, Error>) -> bool {
        match r {
            Ok(found) => {
                &&& dispatch(self.getters().dom(), resolved) == Ok::<
                    (Seq<char>, Seq<char>),
                    ErrorView,
                >((found.scheme@, found.source@))
                &&& *found.getter == self.getters()[found.scheme@]
                &&& found.dest@ == self.destination()
            },
            Err(e) => dispatch(self.getters().dom(), resolved) == Err::<
                (Seq<char>, Seq<char>),
                ErrorView,
            >(e@),
        }
    }

    /// Whether resolving the source needs the working directory: the source
    /// is no URL and is a relative path.
    pub fn needs_base(&self) -> (yes: bool)
        ensures
            yes == wants_base(self.source()),
    {
        detectors::File::needs_base(self.src.0.as_str())
    }

    /// Resolves the source, where relative paths start at `base`, the
    /// working directory; `None` where that is not known. A source that is a
    /// URL is returned as it is and no detector is asked. Otherwise the
    /// detectors are asked in order; the first match or error decides, and
    /// without a match no getter is found.
    pub fn detect(&self, base: Option<&str>) -> (r: Result<String, Error>)
        ensures
            resolves(self.detectors(), base_view(base), self.source(), resolved_view(r)),
    {
        let raw = self.src.0.as_str();
        if Uri::is_uri(raw) {
            return Ok(self.src.0.clone());
        }
        let mut i: usize = 0;
        while i < self.detectors.len()
            invariant
                i <= self.detectors.len(),
                raw@ == self.source(),
                parsed_uri(raw@) is None,
                forall|j: int|
                    0 <= j < i ==> (#[trigger] self.detectors@[j]).answers(
                        base_view(base),
                        raw@,
                        Ok(None),
                    ),
            decreases self.detectors.len() - i,
        {
            let found = self.detectors[i].ask(raw, base);
            if !is_no_match(&found) {
                assert(chain_stops_at(
                    self.detectors(),
                    base_view(base),
                    raw@,
                    detection_view(found),
                    i as int,
                ));
                return resolve(raw, found);
            }
            i += 1;
        }
        proof {
            assert(chain_stops_at(self.detectors(), base_view(base), raw@, Ok(None), i as int));
        }
        resolve(raw, Ok(None))
    }

    /// Selects the getter for a resolved source: the one registered under
    /// the forced protocol of the source or, without one, under the scheme
    /// of its URL. A scheme that has no getter is an error.
    pub fn select(&self, resolved: &str) -> (r: Result<Dispatch<'_, G>, Error>)
        ensures
            self.selects(resolved@, r),
    {
        let (forced, src) = get_forced_proto(resolved);
        let parsed_url = Uri::parse(src)?;
        let scheme = scheme_for(forced, parsed_url);
        self.lookup(scheme, src)
    }

    /// The getter registered under `scheme`, to be called with `source`; a
    /// scheme without a getter is an error.
    pub fn lookup(&self, scheme: String, source: &str) -> (r: Result<Dispatch<'_, G>, Error>)
        ensures
            match r {
                Ok(found) => {
                    &&& registered_selection(self.getters().dom(), scheme@, source@) == Ok::<
                        (Seq<char>, Seq<char>),
                        ErrorView,
                    >((found.scheme@, found.source@))
                    &&& *found.getter == self.getters()[found.scheme@]
                    &&& found.dest@ == self.destination()
                },
                Err(e) => registered_selection(self.getters().dom(), scheme@, source@) == Err::<
                    (Seq<char>, Seq<char>),
                    ErrorView,
                >(e@),
            },
    {
        match self.getters.get(scheme.as_str()) {
            Some(getter) => Ok(
                Dispatch { scheme, getter, dest: self.dest.0.as_str(), source: source.to_owned() },
            ),
            None => Err(Error::GetterNotFound(scheme)),
        }
    }

    /// Resolves the source and selects the getter that is to fetch it: what
    /// `select` answers on what `detect` answers, and the error of `detect`
    /// where it fails.
    pub fn get(&self, base: Option<&str>) -> (r: Result<Dispatch<'_, G>, Error>)
        ensures
            exists|resolved: Result<Seq<char>, ErrorView>|
                {
                    &&& #[trigger] resolves(
                        self.detectors(),
                        base_view(base),
                        self.source(),
                        resolved,
                    )
                    &&& match resolved {
                        Ok(text) => self.selects(text, r),
                        Err(e) => r matches Err(got) && got@ == e,
                    }
                },
    {
        match self.detect(base) {
            Err(e) => {
                proof {
                    assert(resolves(self.detectors(), base_view(base), self.source(), Err(e@)));
                }
                Err(e)
            },
            Ok(src) => {
                proof {
                    assert(resolves(self.detectors(), base_view(base), self.source(), Ok(src@)));
                }
                self.select(src.as_str())
            },
        }
    }
}

} // verus!
