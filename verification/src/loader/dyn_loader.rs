use crate::error::{FmtError, LoadResult, Provenance};
use crate::format::{primary_extension, primary_token, AnyFormat, Decode, Format};
use crate::hooks::{PreProcess, ValidateConfig};
use crate::loader::detect::{
    answers, candidate_views, candidates, candidates_of, detection_of, is_answer, is_winner,
    lemma_candidates_point_at_formats, probed, resolve, route, route_of, texts, DetectionView,
};
use crate::loader::explicit::{
    finish, loads_explicitly, missing_extension, read_failure, verdict_for, verdict_of,
};
use crate::source::{present_in, Source};
use crate::text::{extension, extension_of};
use vstd::prelude::*;

verus! {

/// A loader over one source and any number of formats, chosen at run time.
/// It is built once and never changes afterwards.
///
/// The source sits behind a `Box`. Unless a caller names another type, it
/// is a `dyn Source`.
pub struct DynLoader<S: Source + ?Sized = dyn Source> {
    source: Box<S>,
    formats: Vec<AnyFormat>,
}

/// Collects the parts of a [`DynLoader`]: one source and at least one format.
pub struct DynLoaderBuilder<S: Source + ?Sized = dyn Source> {
    source: Option<Box<S>>,
    formats: Vec<AnyFormat>,
}

impl<S: Source> DynLoaderBuilder<S> {
    /// Sets the source, replacing an earlier one.
    pub fn source(self, source: S) -> (builder: Self)
        ensures
            builder.backing() == Some(&source),
            builder.registered() == self.registered(),
    {
        let DynLoaderBuilder { source: _, formats } = self;
        DynLoaderBuilder { source: Some(Box::new(source)), formats }
    }
}

impl<S: Source + ?Sized> DynLoaderBuilder<S> {
    /// Whether a source has been given.
    pub open spec fn has_source(&self) -> bool {
        self.held() is Some
    }

    /// The source that has been given, if one has.
    pub closed spec fn backing(&self) -> Option<&S> {
        match self.source {
            Some(source) => Some(&*source),
            None => None,
        }
    }

    /// What the source holds, as far as it says so, once a source has been
    /// given.
    pub open spec fn held(&self) -> Option<Option<Map<Seq<char>, Seq<u8>>>> {
        match self.backing() {
            Some(source) => Some(source.contents()),
            None => None,
        }
    }

    /// The formats given so far, in the order they were given.
    pub closed spec fn registered(&self) -> Seq<AnyFormat> {
        self.formats@
    }

    /// A builder with no source and no format.
    pub fn new() -> (builder: Self)
        ensures
            !builder.has_source(),
            builder.registered() == Seq::<AnyFormat>::empty(),
    {
        DynLoaderBuilder { source: None, formats: Vec::new() }
    }

    /// Sets a source that is boxed already, replacing an earlier one.
    pub fn boxed_source(self, source: Box<S>) -> (builder: Self)
        ensures
            builder.backing() == Some(&*source),
            builder.registered() == self.registered(),
    {
        let DynLoaderBuilder { source: _, formats } = self;
        DynLoaderBuilder { source: Some(source), formats }
    }

    /// Registers one more format, after those registered before.
    pub fn format(self, format: AnyFormat) -> (builder: Self)
        ensures
            builder.backing() == self.backing(),
            builder.registered() == self.registered().push(format),
    {
        let DynLoaderBuilder { source, mut formats } = self;
        formats.push(format);
        DynLoaderBuilder { source, formats }
    }

    /// Builds the loader. A source is required, and so is at least one
    /// format; the missing source is reported first.
    pub fn build(self) -> (built: Result<DynLoader<S>, &'static str>)
        ensures
            match built {
                Ok(loader) => {
                    &&& self.registered().len() > 0
                    &&& loader.registered() == self.registered()
                    &&& self.backing() == Some(loader.backing())
                },
                Err(reason) => {
                    if self.has_source() {
                        self.registered().len() == 0 && reason@ == "at least one format is required"@
                    } else {
                        reason@ == "source is required"@
                    }
                },
            },
    {
        let DynLoaderBuilder { source, formats } = self;
        match source {
            None => Err("source is required"),
            Some(source) => {
                if formats.len() == 0 {
                    Err("at least one format is required")
                } else {
                    Ok(DynLoader { source, formats })
                }
            },
        }
    }
}

impl<S: Source + ?Sized> DynLoader<S> {
    /// The registered formats, in registration order.
    pub closed spec fn registered(&self) -> Seq<AnyFormat> {
        self.formats@
    }

    /// The source this loader reads from.
    pub closed spec fn backing(&self) -> &S {
        &*self.source
    }

    /// What the source holds, where the source says so.
    pub open spec fn held(&self) -> Option<Map<Seq<char>, Seq<u8>>> {
        self.backing().contents()
    }

    /// The registered format at `at`, as what an explicit load is told of
    /// it: the wire format it decodes.
    pub open spec fn format_at(&self, at: int) -> AnyFormat {
        self.registered()[at]
    }

    /// Whether `outcome` is a possible end of the explicit load of `key`
    /// with the registered format at `format`, recording `conflicts`.
    pub open spec fn loads<T: Decode + PreProcess + ValidateConfig>(
        &self,
        key: &str,
        format: int,
        conflicts: Seq<Seq<char>>,
        outcome: LoadResult<T>,
    ) -> bool {
        loads_explicitly(
            self.backing(),
            key,
            Some(self.format_at(format)),
            Some(self.format_at(format).tokens()),
            conflicts,
            outcome,
        )
    }

    /// The provenance of a value that was loaded as `detected` says: the
    /// winning key, the primary token of its format, and the conflicts.
    pub open spec fn provenance(&self, detected: DetectionView) -> Provenance {
        Provenance {
            key: detected.key,
            format: primary_token(self.registered()[detected.format as int].tokens()),
            conflicts: detected.conflicts,
        }
    }

    /// The provenance of a value that was loaded from the explicit path
    /// `path` by the registered format at `format`.
    pub open spec fn routed(&self, path: Seq<char>, format: int) -> Provenance {
        self.provenance(
            DetectionView { key: path, format: format as nat, conflicts: Seq::empty() },
        )
    }

    /// A loader over `source` with `formats`, in registration order.
    pub fn new(source: Box<S>, formats: Vec<AnyFormat>) -> (loader: Self)
        ensures
            loader.registered() == formats@,
            loader.backing() == &*source,
    {
        DynLoader { source, formats }
    }

    /// A builder for a loader.
    pub fn builder() -> (builder: DynLoaderBuilder<S>)
        ensures
            !builder.has_source(),
            builder.registered() == Seq::<AnyFormat>::empty(),
    {
        DynLoaderBuilder::new()
    }

    /// Loads `base_name` in whichever registered format is found for it.
    ///
    /// Every candidate key is probed, in registration order. The first that
    /// exists is loaded; later ones that exist too are reported as conflicts
    /// and change nothing else.
    ///
    /// The outcome is stated over answers that the source may give: one
    /// answer of its `contains` for the key of each candidate. Where those
    /// answers detect nothing, the outcome is `NotFound`. Where they detect
    /// a winner, the outcome is a possible end of the explicit load of the
    /// winning key in the winner's format, with the detected conflicts, and
    /// a found value carries the provenance of that detection.
    ///
    /// Over a source that says what it holds, the answers are decided by
    /// that: without an existing candidate the outcome is `NotFound`, with
    /// one it is not.
    pub fn load<T: Decode + PreProcess + ValidateConfig>(&self, base_name: &str) -> (outcome:
        LoadResult<T>)
        ensures
            candidates_of(base_name@, self.registered()).len() == 0 ==> outcome is NotFound,
            exists|hits: Seq<bool>| #[trigger]
                probed(self.backing(), candidates_of(base_name@, self.registered()), hits) && (
                match detection_of(candidates_of(base_name@, self.registered()), hits) {
                    Some(d) => {
                        &&& outcome matches LoadResult::Found { info, .. } ==> info@
                            == self.provenance(d)
                        &&& exists|key: &str| #[trigger]
                            self.loads(key, d.format as int, d.conflicts, outcome) && key@ == d.key
                    },
                    None => outcome is NotFound,
                }),
            self.held() matches Some(held) ==> match detection_of(
                candidates_of(base_name@, self.registered()),
                answers(candidates_of(base_name@, self.registered()), held),
            ) {
                Some(d) => {
                    &&& !(outcome is NotFound)
                    &&& outcome matches LoadResult::Found { info, .. } ==> info@
                        == self.provenance(d)
                },
                None => outcome is NotFound,
            },
    {
        let ghost views = candidates_of(base_name@, self.registered());
        let list = candidates(base_name, &self.formats);
        let mut hits: Vec<bool> = Vec::new();
        let mut i: usize = 0;
        while i < list.len()
            invariant
                i <= list.len(),
                hits.len() == i,
                views == candidate_views(list@),
                self.held() matches Some(held) ==> forall|j: int|
                    0 <= j < i ==> hits@[j] == present_in(held, #[trigger] views[j].key),
                forall|j: int|
                    0 <= j < i ==> is_answer(self.backing(), (#[trigger] views[j]).key, hits@[j]),
            decreases list.len() - i,
        {
            let present = self.source.contains(list[i].key.as_str());
            assert(views[i as int].key == list@[i as int].key@);
            assert(is_answer(self.backing(), views[i as int].key, present));
            hits.push(present);
            i = i + 1;
        }
        proof {
            if self.held() is Some {
                assert(hits@ =~= answers(views, self.held()->0));
            }
            assert(probed(self.backing(), views, hits@));
        }
        match resolve(&list, &hits) {
            Some(winner) => {
                proof {
                    let w = choose|w: int| is_winner(views, hits@, w);
                    lemma_candidates_point_at_formats(base_name@, self.registered(), w);
                    assert(views[w].key == winner.key@);
                    assert(self.held() matches Some(held) ==> present_in(held, winner.key@));
                }
                let ghost detected = detection_of(views, hits@)->0;
                let key: &str = winner.key.as_str();
                let outcome = self.load_explicit(key, winner.format, winner.conflicts);
                assert(outcome matches LoadResult::Found { info, .. } ==> info@ == self.provenance(
                    detected,
                ));
                assert(self.loads(key, detected.format as int, detected.conflicts, outcome));
                outcome
            },
            None => LoadResult::NotFound,
        }
    }

    /// Loads exactly `path`, in the first registered format that claims its
    /// extension. A path without an extension is refused before any format
    /// or the source is asked; a path whose extension no format claims is
    /// not found. A routed path ends as the explicit load of `path` in that
    /// format may end, without conflicts. Over a source that says what it
    /// holds, it is `NotFound` exactly when the source does not hold it.
    pub fn load_file<T: Decode + PreProcess + ValidateConfig>(&self, path: &str) -> (outcome:
        LoadResult<T>)
        ensures
            match extension(path@) {
                None => outcome matches LoadResult::Invalid(FmtError::ParseError(detail))
                    && detail@ == "missing extension"@,
                Some(ext) => match route_of(self.registered(), ext) {
                    None => outcome is NotFound,
                    Some(format) => {
                        &&& outcome matches LoadResult::Found { info, .. } ==> info@
                            == self.routed(path@, format as int)
                        &&& self.held() matches Some(held) ==> (outcome is NotFound
                            <==> !present_in(held, path@))
                        &&& self.loads(path, format as int, Seq::<Seq<char>>::empty(), outcome)
                    },
                },
            },
    {
        match extension_of(path) {
            None => missing_extension(),
            Some(ext) => match route(&self.formats, ext) {
                Some(i) => {
                    assert(texts(Seq::<String>::empty()) =~= Seq::<Seq<char>>::empty());
                    self.load_explicit(path, i, Vec::new())
                },
                None => LoadResult::NotFound,
            },
        }
    }

    /// A dry run of [`DynLoader::load`]: the same pipeline, but only how it
    /// ended comes back. The verdict is that of an outcome that `load` may
    /// give for `base_name`: `Ok` for a found value, which is dropped, the
    /// error of an invalid resource, and `NotFound` for an absent one.
    pub fn validate<T: Decode + PreProcess + ValidateConfig>(&self, base_name: &str) -> (verdict:
        Result<(), FmtError>)
        ensures
            candidates_of(base_name@, self.registered()).len() == 0 ==> (verdict matches Err(e)
                && e is NotFound),
            self.held() matches Some(held) ==> (detection_of(
                candidates_of(base_name@, self.registered()),
                answers(candidates_of(base_name@, self.registered()), held),
            ) is None ==> (verdict matches Err(e) && e is NotFound)),
            exists|outcome: LoadResult<T>| #[trigger]
                call_ensures(Self::load::<T>, (self, base_name), outcome) && verdict
                    == verdict_for(outcome),
    {
        let outcome = self.load::<T>(base_name);
        verdict_of(outcome)
    }

    /// Loads `key` with the registered format at `format`: read, decode, run
    /// the hooks. An absent key is `NotFound` even if it was seen a moment
    /// ago.
    fn load_explicit<T: Decode + PreProcess + ValidateConfig>(
        &self,
        key: &str,
        format: usize,
        conflicts: Vec<String>,
    ) -> (outcome: LoadResult<T>)
        requires
            format < self.registered().len(),
        ensures
            outcome matches LoadResult::Found { info, .. } ==> info@ == (Provenance {
                key: key@,
                format: primary_token(self.format_at(format as int).tokens()),
                conflicts: texts(conflicts@),
            }),
            self.held() matches Some(held) ==> (outcome is NotFound <==> !present_in(held, key@)),
            self.loads(key, format as int, texts(conflicts@), outcome),
    {
        let format = &self.formats[format];
        match self.source.read(key) {
            Ok(bytes) => {
                let parsed = format.parse::<T>(bytes.as_slice());
                let token = primary_extension(format.extensions());
                finish(parsed, key, token, conflicts)
            },
            Err(e) => read_failure(e),
        }
    }
}

} // verus!
