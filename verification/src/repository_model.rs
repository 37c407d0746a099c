//! Assembling the repository model from parsed manifests and symbol files:
//! which patients, geodes, handles, resources and source files there are,
//! and how they relate. Reading the files, and listing the source files
//! under a manifest's directory, is left to the caller.
use vstd::prelude::*;
use crate::cli::{join_path, path_join};
use crate::model::{SwatError, SwatResult};
use crate::pcgeos_obj::{ObjSegmentDescriptor, ObjSegmentType};
use crate::pcgeos_symbols::{
    ObjSourceFileMap, PcGeosSymbolVmFile, SourceFileMapModel, maps_view, source_maps_result,
    string_of,
};
use crate::repository::{
    GpManifest, ManifestModel, PcGeosRepositoryModel, RepositoryGeode, RepositoryHandle,
    RepositoryPatient, RepositoryResource, RepositorySourceFile, ResourceModel,
    normalize_patient_key, patient_key_of, segment_type_label,
};
use crate::strmap::{
    StrMap, has_key, key_value, sorted_keys, with_key, without_key, lemma_with_after_without,
    lemma_value_with, lemma_keys_with,
};
use crate::text::{hex_fixed, owned, push_hex_fixed, push_str, views};

verus! {

/// A set of strings, in string order.
pub type KeySet = Seq<(Seq<char>, ())>;

/// `s` with `k` in it.
pub open spec fn with_member(s: KeySet, k: Seq<char>) -> KeySet {
    with_key(s, k, ())
}

/// `s` with each string of `ks` put in, in order.
pub open spec fn with_members(s: KeySet, ks: Seq<Seq<char>>) -> KeySet
    decreases ks.len(),
{
    if ks.len() == 0 {
        s
    } else {
        with_member(with_members(s, ks.drop_last()), ks.last())
    }
}

/// The strings of a set, in order.
pub open spec fn members(s: KeySet) -> Seq<Seq<char>> {
    s.map_values(|e: (Seq<char>, ())| e.0)
}

/// What is gathered about a patient.
pub struct PatientAcc {
    pub geodes: KeySet,
    pub resources: KeySet,
    pub handles: KeySet,
    pub source_files: KeySet,
    pub artifact_paths: KeySet,
}

/// What is gathered about a geode.
pub struct GeodeAcc {
    pub patient: Seq<char>,
    pub permanent_name: Option<Seq<char>>,
    pub long_name: Option<Seq<char>>,
    pub geode_type: KeySet,
    pub libraries: KeySet,
    pub resources: KeySet,
    pub handles: KeySet,
    pub source_files: KeySet,
    pub artifact_paths: KeySet,
}

/// What is gathered about a segment handle.
pub struct HandleAcc {
    pub patient: Seq<char>,
    pub geode: Seq<char>,
    pub resource: Option<Seq<char>>,
    pub kind: Seq<char>,
    pub data_handle: Option<u16>,
    pub source_files: KeySet,
    pub artifact_path: Seq<char>,
}

/// What is gathered about a resource.
pub struct ResourceAcc {
    pub patient: Seq<char>,
    pub geode: Seq<char>,
    pub handle: Option<Seq<char>>,
    pub kind: Seq<char>,
    pub source_files: KeySet,
    pub artifact_paths: KeySet,
}

/// What is gathered about a source file.
pub struct SourceAcc {
    pub patients: KeySet,
    pub geodes: KeySet,
    pub resources: KeySet,
    pub handles: KeySet,
    pub artifact_paths: KeySet,
}

pub type SourceMapSeq = Seq<(Seq<char>, SourceAcc)>;

/// Everything gathered so far, each kind under its keys.
pub struct RepoAcc {
    pub patients: Seq<(Seq<char>, PatientAcc)>,
    pub geodes: Seq<(Seq<char>, GeodeAcc)>,
    pub handles: Seq<(Seq<char>, HandleAcc)>,
    pub resources: Seq<(Seq<char>, ResourceAcc)>,
    pub sources: SourceMapSeq,
}

/// The value under `k`, or `d` where there is none.
pub open spec fn get_or<V>(s: Seq<(Seq<char>, V)>, k: Seq<char>, d: V) -> V {
    match key_value(s, k) {
        Some(v) => v,
        None => d,
    }
}

pub open spec fn new_patient() -> PatientAcc {
    PatientAcc {
        geodes: Seq::empty(),
        resources: Seq::empty(),
        handles: Seq::empty(),
        source_files: Seq::empty(),
        artifact_paths: Seq::empty(),
    }
}

pub open spec fn new_geode(patient: Seq<char>) -> GeodeAcc {
    GeodeAcc {
        patient,
        permanent_name: None,
        long_name: None,
        geode_type: Seq::empty(),
        libraries: Seq::empty(),
        resources: Seq::empty(),
        handles: Seq::empty(),
        source_files: Seq::empty(),
        artifact_paths: Seq::empty(),
    }
}

pub open spec fn new_handle(patient: Seq<char>, geode: Seq<char>) -> HandleAcc {
    HandleAcc {
        patient,
        geode,
        resource: None,
        kind: "segment"@,
        data_handle: None,
        source_files: Seq::empty(),
        artifact_path: Seq::empty(),
    }
}

pub open spec fn new_resource(patient: Seq<char>, geode: Seq<char>, kind: Seq<char>) -> ResourceAcc {
    ResourceAcc {
        patient,
        geode,
        handle: None,
        kind,
        source_files: Seq::empty(),
        artifact_paths: Seq::empty(),
    }
}

pub open spec fn new_source() -> SourceAcc {
    SourceAcc {
        patients: Seq::empty(),
        geodes: Seq::empty(),
        resources: Seq::empty(),
        handles: Seq::empty(),
        artifact_paths: Seq::empty(),
    }
}

pub open spec fn opt_with(s: KeySet, k: Option<Seq<char>>) -> KeySet {
    match k {
        Some(k) => with_member(s, k),
        None => s,
    }
}

/// A source file's relations with one more patient, geode, optional
/// resource and handle, and artifact.
pub open spec fn relate(s: SourceAcc, patient: Seq<char>, geode: Seq<char>, resource: Option<Seq<char>>, handle: Option<Seq<char>>, artifact: Seq<char>) -> SourceAcc {
    SourceAcc {
        patients: with_member(s.patients, patient),
        geodes: with_member(s.geodes, geode),
        resources: opt_with(s.resources, resource),
        handles: opt_with(s.handles, handle),
        artifact_paths: with_member(s.artifact_paths, artifact),
    }
}

/// The sources with `file` related as `relate` says.
pub open spec fn relate_in(srcs: SourceMapSeq, file: Seq<char>, patient: Seq<char>, geode: Seq<char>, resource: Option<Seq<char>>, handle: Option<Seq<char>>, artifact: Seq<char>) -> SourceMapSeq {
    with_key(srcs, file, relate(get_or(srcs, file, new_source()), patient, geode, resource, handle, artifact))
}

/// Each file of `files` related in order, all with the same artifact.
pub open spec fn relate_all(srcs: SourceMapSeq, files: Seq<Seq<char>>, patient: Seq<char>, geode: Seq<char>, resource: Option<Seq<char>>, handle: Option<Seq<char>>, artifact: Seq<char>) -> SourceMapSeq
    decreases files.len(),
{
    if files.len() == 0 {
        srcs
    } else {
        relate_in(relate_all(srcs, files.drop_last(), patient, geode, resource, handle, artifact), files.last(), patient, geode, resource, handle, artifact)
    }
}

/// Each file of `files` related in order, its artifact the file under
/// directory `root`.
pub open spec fn relate_joined(srcs: SourceMapSeq, files: Seq<Seq<char>>, patient: Seq<char>, geode: Seq<char>, root: Seq<char>) -> SourceMapSeq
    decreases files.len(),
{
    if files.len() == 0 {
        srcs
    } else {
        relate_in(relate_joined(srcs, files.drop_last(), patient, geode, root), files.last(), patient, geode, None, None, path_join(root, files.last()))
    }
}


struct PatientBuilder {
    geodes: StrMap<()>,
    resources: StrMap<()>,
    handles: StrMap<()>,
    source_files: StrMap<()>,
    artifact_paths: StrMap<()>,
}

impl View for PatientBuilder {
    type V = PatientAcc;

    closed spec fn view(&self) -> PatientAcc {
        PatientAcc {
            geodes: self.geodes@,
            resources: self.resources@,
            handles: self.handles@,
            source_files: self.source_files@,
            artifact_paths: self.artifact_paths@,
        }
    }
}

struct GeodeBuilder {
    patient: String,
    permanent_name: Option<String>,
    long_name: Option<String>,
    geode_type: StrMap<()>,
    libraries: StrMap<()>,
    resources: StrMap<()>,
    handles: StrMap<()>,
    source_files: StrMap<()>,
    artifact_paths: StrMap<()>,
}

pub open spec fn opt_view(o: Option<String>) -> Option<Seq<char>> {
    match o {
        Some(s) => Some(s@),
        None => None,
    }
}

impl View for GeodeBuilder {
    type V = GeodeAcc;

    closed spec fn view(&self) -> GeodeAcc {
        GeodeAcc {
            patient: self.patient@,
            permanent_name: opt_view(self.permanent_name),
            long_name: opt_view(self.long_name),
            geode_type: self.geode_type@,
            libraries: self.libraries@,
            resources: self.resources@,
            handles: self.handles@,
            source_files: self.source_files@,
            artifact_paths: self.artifact_paths@,
        }
    }
}

struct HandleBuilder {
    patient: String,
    geode: String,
    resource: Option<String>,
    kind: String,
    data_handle: Option<u16>,
    source_files: StrMap<()>,
    artifact_path: String,
}

impl View for HandleBuilder {
    type V = HandleAcc;

    closed spec fn view(&self) -> HandleAcc {
        HandleAcc {
            patient: self.patient@,
            geode: self.geode@,
            resource: opt_view(self.resource),
            kind: self.kind@,
            data_handle: self.data_handle,
            source_files: self.source_files@,
            artifact_path: self.artifact_path@,
        }
    }
}

struct ResourceBuilder {
    patient: String,
    geode: String,
    handle: Option<String>,
    kind: String,
    source_files: StrMap<()>,
    artifact_paths: StrMap<()>,
}

impl View for ResourceBuilder {
    type V = ResourceAcc;

    closed spec fn view(&self) -> ResourceAcc {
        ResourceAcc {
            patient: self.patient@,
            geode: self.geode@,
            handle: opt_view(self.handle),
            kind: self.kind@,
            source_files: self.source_files@,
            artifact_paths: self.artifact_paths@,
        }
    }
}

struct SourceBuilder {
    patients: StrMap<()>,
    geodes: StrMap<()>,
    resources: StrMap<()>,
    handles: StrMap<()>,
    artifact_paths: StrMap<()>,
}

impl View for SourceBuilder {
    type V = SourceAcc;

    closed spec fn view(&self) -> SourceAcc {
        SourceAcc {
            patients: self.patients@,
            geodes: self.geodes@,
            resources: self.resources@,
            handles: self.handles@,
            artifact_paths: self.artifact_paths@,
        }
    }
}

fn add_member(s: &mut StrMap<()>, k: &str)
    ensures
        final(s)@ == with_member(old(s)@, k@),
{
    s.insert(k, ());
}

fn add_opt_member(s: &mut StrMap<()>, k: Option<&str>)
    ensures
        final(s)@ == opt_with(old(s)@, match k { Some(k) => Some(k@), None => None }),
{
    if let Some(k) = k {
        s.insert(k, ());
    }
}

fn add_members(s: &mut StrMap<()>, ks: &Vec<String>)
    ensures
        final(s)@ == with_members(old(s)@, views(ks@)),
{
    let n = ks.len();
    let mut i: usize = 0;
    while i < n
        invariant
            n == ks@.len(),
            i <= n,
            s@ == with_members(old(s)@, views(ks@).take(i as int)),
        decreases n - i,
    {
        proof {
            assert(views(ks@).take(i as int + 1).drop_last() =~= views(ks@).take(i as int));
        }
        s.insert(ks[i].as_str(), ());
        i = i + 1;
    }
    proof {
        assert(views(ks@).take(n as int) =~= views(ks@));
    }
}

fn add_set(s: &mut StrMap<()>, ks: &StrMap<()>)
    ensures
        final(s)@ == with_members(old(s)@, members(ks@)),
{
    let n = ks.len();
    let mut i: usize = 0;
    while i < n
        invariant
            n == ks@.len(),
            i <= n,
            s@ == with_members(old(s)@, members(ks@).take(i as int)),
        decreases n - i,
    {
        proof {
            assert(members(ks@).take(i as int + 1).drop_last() =~= members(ks@).take(i as int));
        }
        let (k, _) = ks.entry_at(i);
        s.insert(k.as_str(), ());
        i = i + 1;
    }
    proof {
        assert(members(ks@).take(n as int) =~= members(ks@));
    }
}

fn new_source_builder() -> (r: SourceBuilder)
    ensures
        r@ == new_source(),
{
    SourceBuilder {
        patients: StrMap::new(),
        geodes: StrMap::new(),
        resources: StrMap::new(),
        handles: StrMap::new(),
        artifact_paths: StrMap::new(),
    }
}

fn relate_source(
    srcs: &mut StrMap<SourceBuilder>,
    file: &str,
    patient: &str,
    geode: &str,
    resource: Option<&str>,
    handle: Option<&str>,
    artifact: &str,
)
    ensures
        final(srcs)@ == relate_in(
            old(srcs)@,
            file@,
            patient@,
            geode@,
            match resource { Some(k) => Some(k@), None => None },
            match handle { Some(k) => Some(k@), None => None },
            artifact@,
        ),
{
    let mut b = match srcs.take(file) {
        Some(b) => b,
        None => new_source_builder(),
    };
    add_member(&mut b.patients, patient);
    add_member(&mut b.geodes, geode);
    add_opt_member(&mut b.resources, resource);
    add_opt_member(&mut b.handles, handle);
    add_member(&mut b.artifact_paths, artifact);
    let ghost v = b@;
    srcs.insert(file, b);
    proof {
        lemma_with_after_without(old(srcs)@, file@, v);
    }
}


/// The keys of a manifest's resources: the geode key, a colon and the
/// resource's name.
pub open spec fn resource_keys(geode: Seq<char>, rs: Seq<ResourceModel>) -> Seq<Seq<char>> {
    rs.map_values(|r: ResourceModel| geode + ":"@ + r.name)
}

/// The resources with `rk` there (made with `kind` where it was not) and
/// `artifact` among its artifacts.
pub open spec fn touched_resource(res: Seq<(Seq<char>, ResourceAcc)>, rk: Seq<char>, patient: Seq<char>, geode: Seq<char>, kind: Seq<char>, artifact: Seq<char>) -> Seq<(Seq<char>, ResourceAcc)> {
    let r = get_or(res, rk, new_resource(patient, geode, kind));
    with_key(res, rk, ResourceAcc { artifact_paths: with_member(r.artifact_paths, artifact), ..r })
}

/// Each resource of a manifest touched in order.
pub open spec fn gp_resources(res: Seq<(Seq<char>, ResourceAcc)>, rks: Seq<Seq<char>>, patient: Seq<char>, geode: Seq<char>, artifact: Seq<char>) -> Seq<(Seq<char>, ResourceAcc)>
    decreases rks.len(),
{
    if rks.len() == 0 {
        res
    } else {
        touched_resource(gp_resources(res, rks.drop_last(), patient, geode, artifact), rks.last(), patient, geode, "gp-resource"@, artifact)
    }
}

/// What a manifest adds: nothing where it names no geode; an error where
/// its path has no directory; else its geode (under its name), its patient,
/// its source files (each related with its path under `root`) and its
/// resources.
pub open spec fn manifest_step(acc: RepoAcc, m: ManifestModel, root: Option<Seq<char>>, files: Seq<Seq<char>>) -> Result<RepoAcc, Seq<char>> {
    match m.name {
        None => Ok(acc),
        Some(name) => match root {
            None => Err("manifest "@ + m.path + " has no parent"@),
            Some(root) => {
                let pk = patient_key_of(name);
                let rks = resource_keys(name, m.resources);
                let g0 = get_or(acc.geodes, name, new_geode(pk));
                let g = GeodeAcc {
                    permanent_name: Some(name),
                    long_name: m.long_name,
                    geode_type: with_members(g0.geode_type, m.geode_type),
                    libraries: with_members(g0.libraries, m.libraries),
                    artifact_paths: with_member(g0.artifact_paths, m.path),
                    source_files: with_members(g0.source_files, files),
                    resources: with_members(g0.resources, rks),
                    ..g0
                };
                let p0 = get_or(acc.patients, pk, new_patient());
                let p = PatientAcc {
                    geodes: with_member(p0.geodes, name),
                    artifact_paths: with_member(p0.artifact_paths, m.path),
                    source_files: with_members(p0.source_files, files),
                    resources: with_members(p0.resources, rks),
                    ..p0
                };
                Ok(RepoAcc {
                    patients: with_key(acc.patients, pk, p),
                    geodes: with_key(acc.geodes, name, g),
                    handles: acc.handles,
                    resources: gp_resources(acc.resources, rks, pk, name, m.path),
                    sources: relate_joined(acc.sources, files, pk, name, root),
                })
            },
        },
    }
}

/// The repository model being gathered from manifests and symbol files.
pub struct RepositoryBuilder {
    patients: StrMap<PatientBuilder>,
    geodes: StrMap<GeodeBuilder>,
    handles: StrMap<HandleBuilder>,
    resources: StrMap<ResourceBuilder>,
    sources: StrMap<SourceBuilder>,
}

impl View for RepositoryBuilder {
    type V = RepoAcc;

    closed spec fn view(&self) -> RepoAcc {
        RepoAcc {
            patients: self.patients@,
            geodes: self.geodes@,
            handles: self.handles@,
            resources: self.resources@,
            sources: self.sources@,
        }
    }
}

fn new_patient_builder() -> (r: PatientBuilder)
    ensures
        r@ == new_patient(),
{
    PatientBuilder {
        geodes: StrMap::new(),
        resources: StrMap::new(),
        handles: StrMap::new(),
        source_files: StrMap::new(),
        artifact_paths: StrMap::new(),
    }
}

fn new_geode_builder(patient: &str) -> (r: GeodeBuilder)
    ensures
        r@ == new_geode(patient@),
{
    GeodeBuilder {
        patient: owned(patient),
        permanent_name: None,
        long_name: None,
        geode_type: StrMap::new(),
        libraries: StrMap::new(),
        resources: StrMap::new(),
        handles: StrMap::new(),
        source_files: StrMap::new(),
        artifact_paths: StrMap::new(),
    }
}

fn new_resource_builder(patient: &str, geode: &str, kind: &str) -> (r: ResourceBuilder)
    ensures
        r@ == new_resource(patient@, geode@, kind@),
{
    ResourceBuilder {
        patient: owned(patient),
        geode: owned(geode),
        handle: None,
        kind: owned(kind),
        source_files: StrMap::new(),
        artifact_paths: StrMap::new(),
    }
}

fn touch_resource(res: &mut StrMap<ResourceBuilder>, rk: &str, patient: &str, geode: &str, kind: &str, artifact: &str)
    ensures
        final(res)@ == touched_resource(old(res)@, rk@, patient@, geode@, kind@, artifact@),
{
    let mut b = match res.take(rk) {
        Some(b) => b,
        None => new_resource_builder(patient, geode, kind),
    };
    add_member(&mut b.artifact_paths, artifact);
    let ghost v = b@;
    res.insert(rk, b);
    proof {
        lemma_with_after_without(old(res)@, rk@, v);
    }
}

fn opt_owned(o: &Option<String>) -> (r: Option<String>)
    ensures
        opt_view(r) == opt_view(*o),
{
    match o {
        Some(s) => Some(owned(s.as_str())),
        None => None,
    }
}

fn key_with(geode: &str, sep: &str, name: &str) -> (r: String)
    ensures
        r@ == geode@ + sep@ + name@,
{
    let mut s = owned(geode);
    push_str(&mut s, sep);
    push_str(&mut s, name);
    s
}

impl RepositoryBuilder {
    /// Nothing gathered yet.
    pub fn new() -> (r: Self)
        ensures
            r@ == (RepoAcc {
                patients: Seq::empty(),
                geodes: Seq::empty(),
                handles: Seq::empty(),
                resources: Seq::empty(),
                sources: Seq::empty(),
            }),
    {
        RepositoryBuilder {
            patients: StrMap::new(),
            geodes: StrMap::new(),
            handles: StrMap::new(),
            resources: StrMap::new(),
            sources: StrMap::new(),
        }
    }

    /// Adds what a manifest says, as `manifest_step` states; `root` is the
    /// manifest's directory (none where its path has none) and
    /// `source_files` the source files found under it, relative to it.
    /// On an error nothing changes.
    pub fn add_manifest(&mut self, manifest: &GpManifest, root: Option<&str>, source_files: &Vec<String>) -> (r: SwatResult<()>)
        ensures
            match manifest_step(old(self)@, manifest@, match root { Some(t) => Some(t@), None => None }, views(source_files@)) {
                Ok(a) => r is Ok && final(self)@ == a,
                Err(m) => r matches Err(e) && e@ == m && final(self)@ == old(self)@,
            },
    {
        let name = match &manifest.name {
            None => {
                return Ok(());
            },
            Some(n) => n.as_str(),
        };
        let root = match root {
            None => {
                let e = key_with("manifest ", manifest.path.as_str(), " has no parent");
                return Err(SwatError::new(e));
            },
            Some(t) => t,
        };
        let ghost acc = self@;
        let pk = normalize_patient_key(name);
        let mut g = match self.geodes.take(name) {
            Some(g) => g,
            None => new_geode_builder(pk.as_str()),
        };
        let ghost g0 = g@;
        g.permanent_name = Some(owned(name));
        g.long_name = opt_owned(&manifest.long_name);
        add_members(&mut g.geode_type, &manifest.geode_type);
        add_members(&mut g.libraries, &manifest.libraries);
        add_member(&mut g.artifact_paths, manifest.path.as_str());
        let mut p = match self.patients.take(pk.as_str()) {
            Some(p) => p,
            None => new_patient_builder(),
        };
        let ghost p0 = p@;
        add_member(&mut p.geodes, name);
        add_member(&mut p.artifact_paths, manifest.path.as_str());

        let ghost g1 = g@;
        let ghost p1 = p@;
        let ghost geodes1 = self.geodes@;
        let ghost patients1 = self.patients@;
        let ghost fs = views(source_files@);
        let n = source_files.len();
        let mut i: usize = 0;
        while i < n
            invariant
                n == fs.len(),
                fs == views(source_files@),
                i <= n,
                g@ == (GeodeAcc { source_files: with_members(g1.source_files, fs.take(i as int)), ..g1 }),
                p@ == (PatientAcc { source_files: with_members(p1.source_files, fs.take(i as int)), ..p1 }),
                self.sources@ == relate_joined(acc.sources, fs.take(i as int), pk@, name@, root@),
                self.geodes@ == geodes1,
                self.patients@ == patients1,
                self.handles@ == acc.handles,
                self.resources@ == acc.resources,
            decreases n - i,
        {
            proof {
                assert(fs.take(i as int + 1).drop_last() =~= fs.take(i as int));
            }
            let f = source_files[i].as_str();
            add_member(&mut g.source_files, f);
            add_member(&mut p.source_files, f);
            let art = join_path(root, f);
            relate_source(&mut self.sources, f, pk.as_str(), name, None, None, art.as_str());
            i = i + 1;
        }
        proof {
            assert(fs.take(n as int) =~= fs);
        }

        let ghost g2 = g@;
        let ghost p2 = p@;
        let ghost srcs2 = self.sources@;
        let ghost rks = resource_keys(name@, manifest@.resources);
        let m = manifest.resources.len();
        let mut j: usize = 0;
        while j < m
            invariant
                m == manifest.resources@.len(),
                rks == resource_keys(name@, manifest@.resources),
                manifest@.resources == crate::repository::resources_view(manifest.resources@),
                j <= m,
                g@ == (GeodeAcc { resources: with_members(g2.resources, rks.take(j as int)), ..g2 }),
                p@ == (PatientAcc { resources: with_members(p2.resources, rks.take(j as int)), ..p2 }),
                self.resources@ == gp_resources(acc.resources, rks.take(j as int), pk@, name@, manifest.path@),
                self.sources@ == srcs2,
                self.geodes@ == geodes1,
                self.patients@ == patients1,
                self.handles@ == acc.handles,
            decreases m - j,
        {
            proof {
                assert(rks.take(j as int + 1).drop_last() =~= rks.take(j as int));
            }
            let rk = key_with(name, ":", manifest.resources[j].name.as_str());
            proof {
                assert(rk@ == rks[j as int]);
            }
            add_member(&mut g.resources, rk.as_str());
            add_member(&mut p.resources, rk.as_str());
            touch_resource(&mut self.resources, rk.as_str(), pk.as_str(), name, "gp-resource", manifest.path.as_str());
            j = j + 1;
        }
        proof {
            assert(rks.take(m as int) =~= rks);
        }
        let ghost gv = g@;
        let ghost pv = p@;
        self.geodes.insert(name, g);
        self.patients.insert(pk.as_str(), p);
        proof {
            lemma_with_after_without(acc.geodes, name@, gv);
            lemma_with_after_without(acc.patients, pk@, pv);
        }
        Ok(())
    }
}


/// The key of a source file in a symbol file's line maps: its name, or its
/// id in eight hexadecimal digits.
pub open spec fn file_key(m: SourceFileMapModel) -> Seq<char> {
    match m.file_name {
        Some(n) => n,
        None => "id:0x"@ + hex_fixed(m.file_id as nat, 8),
    }
}

pub open spec fn map_keys(maps: Seq<SourceFileMapModel>) -> Seq<Seq<char>> {
    maps.map_values(|m: SourceFileMapModel| file_key(m))
}

/// Whether a line map has a line in the segment at `off`.
pub open spec fn touches(m: SourceFileMapModel, off: u16) -> bool {
    exists|j: int| 0 <= j < m.mappings.len() && (#[trigger] m.mappings[j]).segment_offset == off
}

/// The source files with lines in the segment at `off`.
pub open spec fn segment_files(maps: Seq<SourceFileMapModel>, off: u16) -> KeySet
    decreases maps.len(),
{
    if maps.len() == 0 {
        Seq::empty()
    } else if touches(maps.last(), off) {
        with_member(segment_files(maps.drop_last(), off), file_key(maps.last()))
    } else {
        segment_files(maps.drop_last(), off)
    }
}

/// The label of a segment type.
pub open spec fn segment_label(t: ObjSegmentType) -> Seq<char> {
    match t {
        ObjSegmentType::Private => "private"@,
        ObjSegmentType::Common => "common"@,
        ObjSegmentType::Stack => "stack"@,
        ObjSegmentType::Library => "library"@,
        ObjSegmentType::Resource => "resource"@,
        ObjSegmentType::Lmem => "lmem"@,
        ObjSegmentType::Public => "public"@,
        ObjSegmentType::Absolute => "absolute"@,
        ObjSegmentType::Global => "global"@,
        ObjSegmentType::Unknown(_) => "unknown"@,
    }
}

/// A segment's name, where it has a non-empty one.
pub open spec fn segment_name(f: PcGeosSymbolVmFile, seg: ObjSegmentDescriptor) -> Option<Seq<char>> {
    match string_of(f.strings@, seg.name_id) {
        Some(n) => if n.len() > 0 { Some(n) } else { None },
        None => None,
    }
}

/// The key of the handle of the segment at `off`: the geode key, `:seg:`
/// and the offset in four hexadecimal digits.
pub open spec fn handle_key(geode: Seq<char>, off: u16) -> Seq<char> {
    geode + ":seg:0x"@ + hex_fixed(off as nat, 4)
}

/// What a symbol file's segments change.
pub struct SymState {
    pub g: GeodeAcc,
    pub p: PatientAcc,
    pub handles: Seq<(Seq<char>, HandleAcc)>,
    pub resources: Seq<(Seq<char>, ResourceAcc)>,
    pub sources: SourceMapSeq,
}

/// What one segment adds: its handle, and where it has a name its resource,
/// both related with the source files that have lines in it.
pub open spec fn segment_step(st: SymState, f: PcGeosSymbolVmFile, seg: ObjSegmentDescriptor, maps: Seq<SourceFileMapModel>, patient: Seq<char>, geode: Seq<char>, path: Seq<char>) -> SymState {
    let hk = handle_key(geode, seg.descriptor_offset);
    let rname = segment_name(f, seg);
    let fl = members(segment_files(maps, seg.descriptor_offset));
    let label = segment_label(seg.segment_type);
    let h0 = get_or(st.handles, hk, new_handle(patient, geode));
    let h = HandleAcc {
        kind: label,
        data_handle: if seg.data != 0 { Some(seg.data) } else { None },
        resource: match rname {
            Some(n) => Some(geode + ":"@ + n),
            None => None,
        },
        artifact_path: path,
        source_files: with_members(h0.source_files, fl),
        ..h0
    };
    let handles = with_key(st.handles, hk, h);
    let srcs = relate_all(st.sources, fl, patient, geode, None, Some(hk), path);
    let g = GeodeAcc { handles: with_member(st.g.handles, hk), ..st.g };
    let p = PatientAcc { handles: with_member(st.p.handles, hk), ..st.p };
    match rname {
        None => SymState { g, p, handles, resources: st.resources, sources: srcs },
        Some(n) => {
            let rk = geode + ":"@ + n;
            let r0 = get_or(st.resources, rk, new_resource(patient, geode, label));
            let r = ResourceAcc {
                handle: Some(hk),
                artifact_paths: with_member(r0.artifact_paths, path),
                source_files: with_members(r0.source_files, fl),
                ..r0
            };
            SymState {
                g: GeodeAcc { resources: with_member(g.resources, rk), ..g },
                p: PatientAcc { resources: with_member(p.resources, rk), ..p },
                handles,
                resources: with_key(st.resources, rk, r),
                sources: relate_all(srcs, fl, patient, geode, Some(rk), Some(hk), path),
            }
        },
    }
}

/// Each segment added in order.
pub open spec fn segments_fold(st: SymState, f: PcGeosSymbolVmFile, segs: Seq<ObjSegmentDescriptor>, maps: Seq<SourceFileMapModel>, patient: Seq<char>, geode: Seq<char>, path: Seq<char>) -> SymState
    decreases segs.len(),
{
    if segs.len() == 0 {
        st
    } else {
        segment_step(segments_fold(st, f, segs.drop_last(), maps, patient, geode, path), f, segs.last(), maps, patient, geode, path)
    }
}

/// What a symbol file at `path` of geode `geode` adds: the geode and its
/// patient, its source files, and a handle (and resource) for each segment;
/// or the error of reading its line maps.
pub open spec fn symbol_step(acc: RepoAcc, path: Seq<char>, geode: Seq<char>, f: PcGeosSymbolVmFile) -> Result<RepoAcc, Seq<char>> {
    match source_maps_result(f) {
        Some(Ok(maps)) => {
            let pk = patient_key_of(geode);
            let keys = map_keys(maps);
            let g0 = get_or(acc.geodes, geode, new_geode(pk));
            let g = GeodeAcc {
                artifact_paths: with_member(g0.artifact_paths, path),
                libraries: with_member(g0.libraries, "symbol-vm"@),
                source_files: with_members(g0.source_files, keys),
                ..g0
            };
            let p0 = get_or(acc.patients, pk, new_patient());
            let p = PatientAcc {
                geodes: with_member(p0.geodes, geode),
                artifact_paths: with_member(p0.artifact_paths, path),
                source_files: with_members(p0.source_files, keys),
                ..p0
            };
            let st0 = SymState {
                g,
                p,
                handles: acc.handles,
                resources: acc.resources,
                sources: relate_all(acc.sources, keys, pk, geode, None, None, path),
            };
            let st = segments_fold(st0, f, f.header.segments@, maps, pk, geode, path);
            Ok(RepoAcc {
                patients: with_key(acc.patients, pk, st.p),
                geodes: with_key(acc.geodes, geode, st.g),
                handles: st.handles,
                resources: st.resources,
                sources: st.sources,
            })
        },
        Some(Err(m)) => Err(m),
        None => Ok(acc),
    }
}

fn file_key_of(m: &ObjSourceFileMap) -> (r: String)
    ensures
        r@ == file_key(m@),
{
    match &m.file_name {
        Some(n) => owned(n.as_str()),
        None => {
            let mut s = owned("id:0x");
            push_hex_fixed(&mut s, m.file_id as u64, 8);
            s
        },
    }
}

fn map_touches(m: &ObjSourceFileMap, off: u16) -> (r: bool)
    ensures
        r == touches(m@, off),
{
    let n = m.mappings.len();
    let mut j: usize = 0;
    while j < n
        invariant
            n == m.mappings@.len(),
            j <= n,
            forall|k: int| 0 <= k < j ==> (#[trigger] m.mappings@[k]).segment_offset != off,
        decreases n - j,
    {
        if m.mappings[j].segment_offset == off {
            proof {
                assert(m@.mappings[j as int] == m.mappings@[j as int]);
            }
            return true;
        }
        j = j + 1;
    }
    false
}

fn segment_files_of(maps: &Vec<ObjSourceFileMap>, keys: &Vec<String>, off: u16) -> (r: StrMap<()>)
    requires
        views(keys@) == map_keys(maps_view(maps@)),
    ensures
        r@ == segment_files(maps_view(maps@), off),
{
    let ghost ms = maps_view(maps@);
    let mut out: StrMap<()> = StrMap::new();
    let n = maps.len();
    proof {
        assert(views(keys@).len() == keys@.len());
        assert(map_keys(ms).len() == ms.len());
    }
    let mut i: usize = 0;
    while i < n
        invariant
            n == maps@.len(),
            ms == maps_view(maps@),
            views(keys@) == map_keys(ms),
            keys@.len() == n,
            i <= n,
            out@ == segment_files(ms.take(i as int), off),
        decreases n - i,
    {
        proof {
            assert(ms.take(i as int + 1).drop_last() =~= ms.take(i as int));
            assert(ms.take(i as int + 1).last() == ms[i as int]);
            assert(keys@[i as int]@ == views(keys@)[i as int]);
        }
        if map_touches(&maps[i], off) {
            out.insert(keys[i].as_str(), ());
        }
        i = i + 1;
    }
    proof {
        assert(ms.take(n as int) =~= ms);
    }
    out
}

fn relate_set(
    srcs: &mut StrMap<SourceBuilder>,
    files: &StrMap<()>,
    patient: &str,
    geode: &str,
    resource: Option<&str>,
    handle: Option<&str>,
    artifact: &str,
)
    ensures
        final(srcs)@ == relate_all(
            old(srcs)@,
            members(files@),
            patient@,
            geode@,
            match resource { Some(k) => Some(k@), None => None },
            match handle { Some(k) => Some(k@), None => None },
            artifact@,
        ),
{
    let ghost fl = members(files@);
    let n = files.len();
    let mut i: usize = 0;
    while i < n
        invariant
            n == files@.len(),
            fl == members(files@),
            i <= n,
            srcs@ == relate_all(
                old(srcs)@,
                fl.take(i as int),
                patient@,
                geode@,
                match resource { Some(k) => Some(k@), None => None },
                match handle { Some(k) => Some(k@), None => None },
                artifact@,
            ),
        decreases n - i,
    {
        proof {
            assert(fl.take(i as int + 1).drop_last() =~= fl.take(i as int));
        }
        let (f, _) = files.entry_at(i);
        relate_source(srcs, f.as_str(), patient, geode, resource, handle, artifact);
        i = i + 1;
    }
    proof {
        assert(fl.take(n as int) =~= fl);
    }
}


fn new_handle_builder(patient: &str, geode: &str) -> (r: HandleBuilder)
    ensures
        r@ == new_handle(patient@, geode@),
{
    HandleBuilder {
        patient: owned(patient),
        geode: owned(geode),
        resource: None,
        kind: owned("segment"),
        data_handle: None,
        source_files: StrMap::new(),
        artifact_path: String::new(),
    }
}

fn segment_name_of<'a>(f: &'a PcGeosSymbolVmFile, seg: &ObjSegmentDescriptor) -> (r: Option<&'a str>)
    ensures
        match r {
            Some(n) => segment_name(*f, *seg) == Some(n@),
            None => segment_name(*f, *seg) is None,
        },
{
    match seg.name(&f.strings) {
        Some(n) => {
            if n.unicode_len() > 0 {
                Some(n)
            } else {
                None
            }
        },
        None => None,
    }
}

impl RepositoryBuilder {
    #[verifier::spinoff_prover]
    #[verifier::rlimit(60)]
    fn add_segment(
        &mut self,
        g: &mut GeodeBuilder,
        p: &mut PatientBuilder,
        f: &PcGeosSymbolVmFile,
        seg: &ObjSegmentDescriptor,
        maps: &Vec<ObjSourceFileMap>,
        keys: &Vec<String>,
        patient: &str,
        geode: &str,
        path: &str,
    )
        requires
            views(keys@) == map_keys(maps_view(maps@)),
        ensures
            (SymState {
                g: final(g)@,
                p: final(p)@,
                handles: final(self)@.handles,
                resources: final(self)@.resources,
                sources: final(self)@.sources,
            }) == segment_step(
                SymState {
                    g: old(g)@,
                    p: old(p)@,
                    handles: old(self)@.handles,
                    resources: old(self)@.resources,
                    sources: old(self)@.sources,
                },
                *f,
                *seg,
                maps_view(maps@),
                patient@,
                geode@,
                path@,
            ),
            final(self)@.patients == old(self)@.patients,
            final(self)@.geodes == old(self)@.geodes,
    {
        let mut hk = owned(geode);
        push_str(&mut hk, ":seg:0x");
        push_hex_fixed(&mut hk, seg.descriptor_offset as u64, 4);
        let rname = segment_name_of(f, seg);
        let files = segment_files_of(maps, keys, seg.descriptor_offset);
        let label = segment_type_label(seg.segment_type);
        let mut h = match self.handles.take(hk.as_str()) {
            Some(h) => h,
            None => new_handle_builder(patient, geode),
        };
        h.kind = owned(label);
        h.data_handle = if seg.data != 0 {
            Some(seg.data)
        } else {
            None
        };
        h.resource = match rname {
            Some(n) => Some(key_with(geode, ":", n)),
            None => None,
        };
        h.artifact_path = owned(path);
        add_set(&mut h.source_files, &files);
        let ghost hv = h@;
        let ghost old_handles = self.handles@;
        self.handles.insert(hk.as_str(), h);
        proof {
            lemma_with_after_without(old(self)@.handles, hk@, hv);
        }
        relate_set(&mut self.sources, &files, patient, geode, None, Some(hk.as_str()), path);
        add_member(&mut g.handles, hk.as_str());
        add_member(&mut p.handles, hk.as_str());
        match rname {
            None => {},
            Some(n) => {
                let rk = key_with(geode, ":", n);
                add_member(&mut g.resources, rk.as_str());
                add_member(&mut p.resources, rk.as_str());
                let mut r = match self.resources.take(rk.as_str()) {
                    Some(r) => r,
                    None => new_resource_builder(patient, geode, label),
                };
                r.handle = Some(owned(hk.as_str()));
                add_member(&mut r.artifact_paths, path);
                add_set(&mut r.source_files, &files);
                let ghost rv = r@;
                self.resources.insert(rk.as_str(), r);
                proof {
                    lemma_with_after_without(old(self)@.resources, rk@, rv);
                }
                relate_set(&mut self.sources, &files, patient, geode, Some(rk.as_str()), Some(hk.as_str()), path);
            },
        }
    }

    /// Adds what a symbol file of geode `geode_key` at `path` holds, as
    /// `symbol_step` states. On an error nothing changes.
    pub fn add_symbol_file(&mut self, path: &str, geode_key: &str, file: &PcGeosSymbolVmFile) -> (r: SwatResult<()>)
        requires
            source_maps_result(*file) is Some,
        ensures
            match symbol_step(old(self)@, path@, geode_key@, *file) {
                Ok(a) => r is Ok && final(self)@ == a,
                Err(m) => r matches Err(e) && e@ == m && final(self)@ == old(self)@,
            },
    {
        let maps = match file.source_maps() {
            Ok(m) => m,
            Err(e) => {
                return Err(e);
            },
        };
        let ghost ms = maps_view(maps@);
        let ghost acc = self@;
        let pk = normalize_patient_key(geode_key);
        let mut g = match self.geodes.take(geode_key) {
            Some(g) => g,
            None => new_geode_builder(pk.as_str()),
        };
        add_member(&mut g.artifact_paths, path);
        add_member(&mut g.libraries, "symbol-vm");
        let mut p = match self.patients.take(pk.as_str()) {
            Some(p) => p,
            None => new_patient_builder(),
        };
        add_member(&mut p.geodes, geode_key);
        add_member(&mut p.artifact_paths, path);

        let ghost g1 = g@;
        let ghost p1 = p@;
        let ghost geodes1 = self.geodes@;
        let ghost patients1 = self.patients@;
        let ghost ks = map_keys(ms);
        let n = maps.len();
        let mut keys: Vec<String> = Vec::new();
        let mut i: usize = 0;
        while i < n
            invariant
                n == maps@.len(),
                ms == maps_view(maps@),
                ks == map_keys(ms),
                i <= n,
                views(keys@) == ks.take(i as int),
                g@ == (GeodeAcc { source_files: with_members(g1.source_files, ks.take(i as int)), ..g1 }),
                p@ == (PatientAcc { source_files: with_members(p1.source_files, ks.take(i as int)), ..p1 }),
                self.sources@ == relate_all(acc.sources, ks.take(i as int), pk@, geode_key@, None, None, path@),
                self.geodes@ == geodes1,
                self.patients@ == patients1,
                self.handles@ == acc.handles,
                self.resources@ == acc.resources,
            decreases n - i,
        {
            proof {
                assert(ks.take(i as int + 1).drop_last() =~= ks.take(i as int));
            }
            let k = file_key_of(&maps[i]);
            proof {
                assert(k@ == ks[i as int]);
            }
            add_member(&mut g.source_files, k.as_str());
            add_member(&mut p.source_files, k.as_str());
            relate_source(&mut self.sources, k.as_str(), pk.as_str(), geode_key, None, None, path);
            let ghost before = keys@;
            keys.push(k);
            proof {
                assert(views(keys@) =~= views(before).push(ks[i as int]));
                assert(views(keys@) =~= ks.take(i as int + 1));
            }
            i = i + 1;
        }
        proof {
            assert(ks.take(n as int) =~= ks);
        }

        let ghost st0 = SymState {
            g: g@,
            p: p@,
            handles: self.handles@,
            resources: self.resources@,
            sources: self.sources@,
        };
        let ghost segs = file.header.segments@;
        let m = file.header.segments.len();
        let mut j: usize = 0;
        while j < m
            invariant
                m == segs.len(),
                segs == file.header.segments@,
                ms == maps_view(maps@),
                views(keys@) == map_keys(ms),
                j <= m,
                (SymState {
                    g: g@,
                    p: p@,
                    handles: self.handles@,
                    resources: self.resources@,
                    sources: self.sources@,
                }) == segments_fold(st0, *file, segs.take(j as int), ms, pk@, geode_key@, path@),
                self.geodes@ == geodes1,
                self.patients@ == patients1,
            decreases m - j,
        {
            proof {
                assert(segs.take(j as int + 1).drop_last() =~= segs.take(j as int));
            }
            self.add_segment(&mut g, &mut p, file, &file.header.segments[j], &maps, &keys, pk.as_str(), geode_key, path);
            j = j + 1;
        }
        proof {
            assert(segs.take(m as int) =~= segs);
        }
        let ghost gv = g@;
        let ghost pv = p@;
        self.geodes.insert(geode_key, g);
        self.patients.insert(pk.as_str(), p);
        proof {
            lemma_with_after_without(acc.geodes, geode_key@, gv);
            lemma_with_after_without(acc.patients, pk@, pv);
        }
        Ok(())
    }
}


/// `x` is the patient `k` with what `a` gathered, each list in order.
pub open spec fn patient_is(x: RepositoryPatient, k: Seq<char>, a: PatientAcc) -> bool {
    &&& x.key@ == k
    &&& views(x.geodes@) == members(a.geodes)
    &&& views(x.resources@) == members(a.resources)
    &&& views(x.handles@) == members(a.handles)
    &&& views(x.source_files@) == members(a.source_files)
    &&& views(x.artifact_paths@) == members(a.artifact_paths)
}

/// `x` is the geode `k` with what `a` gathered.
pub open spec fn geode_is(x: RepositoryGeode, k: Seq<char>, a: GeodeAcc) -> bool {
    &&& x.key@ == k
    &&& x.patient@ == a.patient
    &&& opt_view(x.permanent_name) == a.permanent_name
    &&& opt_view(x.long_name) == a.long_name
    &&& views(x.geode_type@) == members(a.geode_type)
    &&& views(x.libraries@) == members(a.libraries)
    &&& views(x.resources@) == members(a.resources)
    &&& views(x.handles@) == members(a.handles)
    &&& views(x.source_files@) == members(a.source_files)
    &&& views(x.artifact_paths@) == members(a.artifact_paths)
}

/// `x` is the handle `k` with what `a` gathered.
pub open spec fn handle_is(x: RepositoryHandle, k: Seq<char>, a: HandleAcc) -> bool {
    &&& x.key@ == k
    &&& x.patient@ == a.patient
    &&& x.geode@ == a.geode
    &&& opt_view(x.resource) == a.resource
    &&& x.kind@ == a.kind
    &&& x.data_handle == a.data_handle
    &&& views(x.source_files@) == members(a.source_files)
    &&& x.artifact_path@ == a.artifact_path
}

/// `x` is the resource `k` with what `a` gathered.
pub open spec fn resource_is(x: RepositoryResource, k: Seq<char>, a: ResourceAcc) -> bool {
    &&& x.key@ == k
    &&& x.patient@ == a.patient
    &&& x.geode@ == a.geode
    &&& opt_view(x.handle) == a.handle
    &&& x.kind@ == a.kind
    &&& views(x.source_files@) == members(a.source_files)
    &&& views(x.artifact_paths@) == members(a.artifact_paths)
}

/// `x` is the source file `k` with what `a` gathered.
pub open spec fn source_is(x: RepositorySourceFile, k: Seq<char>, a: SourceAcc) -> bool {
    &&& x.key@ == k
    &&& views(x.patients@) == members(a.patients)
    &&& views(x.geodes@) == members(a.geodes)
    &&& views(x.resources@) == members(a.resources)
    &&& views(x.handles@) == members(a.handles)
    &&& views(x.artifact_paths@) == members(a.artifact_paths)
}

/// `r` lists what `acc` gathered, each kind in key order.
pub open spec fn model_of(r: PcGeosRepositoryModel, acc: RepoAcc) -> bool {
    &&& r.patients@.len() == acc.patients.len()
    &&& forall|i: int| 0 <= i < acc.patients.len() ==> patient_is(#[trigger] r.patients@[i], acc.patients[i].0, acc.patients[i].1)
    &&& r.geodes@.len() == acc.geodes.len()
    &&& forall|i: int| 0 <= i < acc.geodes.len() ==> geode_is(#[trigger] r.geodes@[i], acc.geodes[i].0, acc.geodes[i].1)
    &&& r.handles@.len() == acc.handles.len()
    &&& forall|i: int| 0 <= i < acc.handles.len() ==> handle_is(#[trigger] r.handles@[i], acc.handles[i].0, acc.handles[i].1)
    &&& r.resources@.len() == acc.resources.len()
    &&& forall|i: int| 0 <= i < acc.resources.len() ==> resource_is(#[trigger] r.resources@[i], acc.resources[i].0, acc.resources[i].1)
    &&& r.source_files@.len() == acc.sources.len()
    &&& forall|i: int| 0 <= i < acc.sources.len() ==> source_is(#[trigger] r.source_files@[i], acc.sources[i].0, acc.sources[i].1)
}

fn listed(s: &StrMap<()>) -> (r: Vec<String>)
    ensures
        views(r@) == members(s@),
{
    let r = s.keys();
    proof {
        assert(views(r@) =~= members(s@)) by {
            assert(views(r@) =~= r@.map_values(|k: String| k@));
            assert(members(s@) =~= s@.map_values(|e: (Seq<char>, ())| e.0));
        }
    }
    r
}

fn patient_out(k: &String, b: &PatientBuilder) -> (r: RepositoryPatient)
    ensures
        patient_is(r, k@, b@),
{
    RepositoryPatient {
        key: owned(k.as_str()),
        geodes: listed(&b.geodes),
        resources: listed(&b.resources),
        handles: listed(&b.handles),
        source_files: listed(&b.source_files),
        artifact_paths: listed(&b.artifact_paths),
    }
}

fn geode_out(k: &String, b: &GeodeBuilder) -> (r: RepositoryGeode)
    ensures
        geode_is(r, k@, b@),
{
    RepositoryGeode {
        key: owned(k.as_str()),
        patient: owned(b.patient.as_str()),
        permanent_name: opt_owned(&b.permanent_name),
        long_name: opt_owned(&b.long_name),
        geode_type: listed(&b.geode_type),
        libraries: listed(&b.libraries),
        resources: listed(&b.resources),
        handles: listed(&b.handles),
        source_files: listed(&b.source_files),
        artifact_paths: listed(&b.artifact_paths),
    }
}

fn handle_out(k: &String, b: &HandleBuilder) -> (r: RepositoryHandle)
    ensures
        handle_is(r, k@, b@),
{
    RepositoryHandle {
        key: owned(k.as_str()),
        patient: owned(b.patient.as_str()),
        geode: owned(b.geode.as_str()),
        resource: opt_owned(&b.resource),
        kind: owned(b.kind.as_str()),
        data_handle: b.data_handle,
        source_files: listed(&b.source_files),
        artifact_path: owned(b.artifact_path.as_str()),
    }
}

fn resource_out(k: &String, b: &ResourceBuilder) -> (r: RepositoryResource)
    ensures
        resource_is(r, k@, b@),
{
    RepositoryResource {
        key: owned(k.as_str()),
        patient: owned(b.patient.as_str()),
        geode: owned(b.geode.as_str()),
        handle: opt_owned(&b.handle),
        kind: owned(b.kind.as_str()),
        source_files: listed(&b.source_files),
        artifact_paths: listed(&b.artifact_paths),
    }
}

fn source_out(k: &String, b: &SourceBuilder) -> (r: RepositorySourceFile)
    ensures
        source_is(r, k@, b@),
{
    RepositorySourceFile {
        key: owned(k.as_str()),
        patients: listed(&b.patients),
        geodes: listed(&b.geodes),
        resources: listed(&b.resources),
        handles: listed(&b.handles),
        artifact_paths: listed(&b.artifact_paths),
    }
}

impl RepositoryBuilder {
    /// The model of what was gathered: each kind in key order, each list of
    /// keys in order and once.
    pub fn build(&self) -> (r: PcGeosRepositoryModel)
        ensures
            model_of(r, self@),
    {
        let mut patients: Vec<RepositoryPatient> = Vec::new();
        let n = self.patients.len();
        let mut i: usize = 0;
        while i < n
            invariant
                n == self.patients@.len(),
                i <= n,
                patients@.len() == i,
                forall|k: int| 0 <= k < i ==> patient_is(#[trigger] patients@[k], self.patients@[k].0, self.patients@[k].1),
            decreases n - i,
        {
            let (k, b) = self.patients.entry_at(i);
            patients.push(patient_out(k, b));
            i = i + 1;
        }
        let mut geodes: Vec<RepositoryGeode> = Vec::new();
        let n = self.geodes.len();
        let mut i: usize = 0;
        while i < n
            invariant
                n == self.geodes@.len(),
                i <= n,
                geodes@.len() == i,
                forall|k: int| 0 <= k < i ==> geode_is(#[trigger] geodes@[k], self.geodes@[k].0, self.geodes@[k].1),
            decreases n - i,
        {
            let (k, b) = self.geodes.entry_at(i);
            geodes.push(geode_out(k, b));
            i = i + 1;
        }
        let mut handles: Vec<RepositoryHandle> = Vec::new();
        let n = self.handles.len();
        let mut i: usize = 0;
        while i < n
            invariant
                n == self.handles@.len(),
                i <= n,
                handles@.len() == i,
                forall|k: int| 0 <= k < i ==> handle_is(#[trigger] handles@[k], self.handles@[k].0, self.handles@[k].1),
            decreases n - i,
        {
            let (k, b) = self.handles.entry_at(i);
            handles.push(handle_out(k, b));
            i = i + 1;
        }
        let mut resources: Vec<RepositoryResource> = Vec::new();
        let n = self.resources.len();
        let mut i: usize = 0;
        while i < n
            invariant
                n == self.resources@.len(),
                i <= n,
                resources@.len() == i,
                forall|k: int| 0 <= k < i ==> resource_is(#[trigger] resources@[k], self.resources@[k].0, self.resources@[k].1),
            decreases n - i,
        {
            let (k, b) = self.resources.entry_at(i);
            resources.push(resource_out(k, b));
            i = i + 1;
        }
        let mut source_files: Vec<RepositorySourceFile> = Vec::new();
        let n = self.sources.len();
        let mut i: usize = 0;
        while i < n
            invariant
                n == self.sources@.len(),
                i <= n,
                source_files@.len() == i,
                forall|k: int| 0 <= k < i ==> source_is(#[trigger] source_files@[k], self.sources@[k].0, self.sources@[k].1),
            decreases n - i,
        {
            let (k, b) = self.sources.entry_at(i);
            source_files.push(source_out(k, b));
            i = i + 1;
        }
        PcGeosRepositoryModel { patients, geodes, handles, resources, source_files }
    }
}


/// A manifest with what was found on disk for it: its directory (none where
/// its path has none) and the source files under that directory, relative
/// to it.
pub struct ManifestInput {
    pub manifest: GpManifest,
    pub root: Option<String>,
    pub source_files: Vec<String>,
}

/// A symbol file with its path and the key of the geode it belongs to.
pub struct SymbolInput {
    pub path: String,
    pub geode_key: String,
    pub file: PcGeosSymbolVmFile,
}

pub open spec fn empty_acc() -> RepoAcc {
    RepoAcc {
        patients: Seq::empty(),
        geodes: Seq::empty(),
        handles: Seq::empty(),
        resources: Seq::empty(),
        sources: Seq::empty(),
    }
}

/// The manifests added in order; the first error stops.
pub open spec fn manifests_fold(acc: RepoAcc, ms: Seq<ManifestInput>) -> Result<RepoAcc, Seq<char>>
    decreases ms.len(),
{
    if ms.len() == 0 {
        Ok(acc)
    } else {
        match manifests_fold(acc, ms.drop_last()) {
            Err(e) => Err(e),
            Ok(a) => manifest_step(a, ms.last().manifest@, opt_view(ms.last().root), views(ms.last().source_files@)),
        }
    }
}

/// The symbol files added in order; the first error stops.
pub open spec fn symbols_fold(acc: RepoAcc, ss: Seq<SymbolInput>) -> Result<RepoAcc, Seq<char>>
    decreases ss.len(),
{
    if ss.len() == 0 {
        Ok(acc)
    } else {
        match symbols_fold(acc, ss.drop_last()) {
            Err(e) => Err(e),
            Ok(a) => symbol_step(a, ss.last().path@, ss.last().geode_key@, ss.last().file),
        }
    }
}

/// What the manifests and then the symbol files gather.
pub open spec fn fixture_acc(ms: Seq<ManifestInput>, ss: Seq<SymbolInput>) -> Result<RepoAcc, Seq<char>> {
    match manifests_fold(empty_acc(), ms) {
        Err(e) => Err(e),
        Ok(a) => symbols_fold(a, ss),
    }
}

proof fn lemma_manifests_err_stays(acc: RepoAcc, ms: Seq<ManifestInput>, k: int)
    requires
        0 <= k <= ms.len(),
        manifests_fold(acc, ms.take(k)) is Err,
    ensures
        manifests_fold(acc, ms) == manifests_fold(acc, ms.take(k)),
    decreases ms.len() - k,
{
    if k < ms.len() {
        assert(ms.take(k + 1).drop_last() =~= ms.take(k));
        lemma_manifests_err_stays(acc, ms, k + 1);
    } else {
        assert(ms.take(k) =~= ms);
    }
}

proof fn lemma_symbols_err_stays(acc: RepoAcc, ss: Seq<SymbolInput>, k: int)
    requires
        0 <= k <= ss.len(),
        symbols_fold(acc, ss.take(k)) is Err,
    ensures
        symbols_fold(acc, ss) == symbols_fold(acc, ss.take(k)),
    decreases ss.len() - k,
{
    if k < ss.len() {
        assert(ss.take(k + 1).drop_last() =~= ss.take(k));
        lemma_symbols_err_stays(acc, ss, k + 1);
    } else {
        assert(ss.take(k) =~= ss);
    }
}

impl PcGeosRepositoryModel {
    /// The repository model of the manifests, then the symbol files, each
    /// in order; the first error where one stops.
    pub fn from_fixture_paths(manifests: &Vec<ManifestInput>, symbols: &Vec<SymbolInput>) -> (r: SwatResult<Self>)
        requires
            forall|i: int| 0 <= i < symbols@.len() ==> source_maps_result(#[trigger] symbols@[i].file) is Some,
        ensures
            match fixture_acc(manifests@, symbols@) {
                Ok(a) => r matches Ok(m) && model_of(m, a),
                Err(e) => r matches Err(x) && x@ == e,
            },
    {
        let mut b = RepositoryBuilder::new();
        let n = manifests.len();
        let mut i: usize = 0;
        assert(manifests@.take(0) =~= Seq::<ManifestInput>::empty());
        while i < n
            invariant
                n == manifests@.len(),
                i <= n,
                manifests_fold(empty_acc(), manifests@.take(i as int)) == Ok::<RepoAcc, Seq<char>>(b@),
            decreases n - i,
        {
            proof {
                assert(manifests@.take(i as int + 1).drop_last() =~= manifests@.take(i as int));
            }
            let m = &manifests[i];
            let root = match &m.root {
                Some(t) => Some(t.as_str()),
                None => None,
            };
            match b.add_manifest(&m.manifest, root, &m.source_files) {
                Ok(()) => {},
                Err(e) => {
                    proof {
                        lemma_manifests_err_stays(empty_acc(), manifests@, i as int + 1);
                    }
                    return Err(e);
                },
            }
            i = i + 1;
        }
        proof {
            assert(manifests@.take(n as int) =~= manifests@);
        }
        let ghost a0 = b@;
        let n = symbols.len();
        let mut j: usize = 0;
        assert(symbols@.take(0) =~= Seq::<SymbolInput>::empty());
        while j < n
            invariant
                n == symbols@.len(),
                j <= n,
                forall|i: int| 0 <= i < symbols@.len() ==> source_maps_result(#[trigger] symbols@[i].file) is Some,
                manifests_fold(empty_acc(), manifests@) == Ok::<RepoAcc, Seq<char>>(a0),
                symbols_fold(a0, symbols@.take(j as int)) == Ok::<RepoAcc, Seq<char>>(b@),
            decreases n - j,
        {
            proof {
                assert(symbols@.take(j as int + 1).drop_last() =~= symbols@.take(j as int));
            }
            let s = &symbols[j];
            match b.add_symbol_file(s.path.as_str(), s.geode_key.as_str(), &s.file) {
                Ok(()) => {},
                Err(e) => {
                    proof {
                        lemma_symbols_err_stays(a0, symbols@, j as int + 1);
                    }
                    return Err(e);
                },
            }
            j = j + 1;
        }
        proof {
            assert(symbols@.take(n as int) =~= symbols@);
        }
        Ok(b.build())
    }
}


/// What `std::path::Path::parent` gives for a path, as text.
pub uninterp spec fn path_parent(path: Seq<char>) -> Option<Seq<char>>;

/// What `std::path::Path::file_name` gives for a path, as text.
pub uninterp spec fn path_file_name(path: Seq<char>) -> Option<Seq<char>>;

/// What `std::path::Path::file_stem` gives for a path, as text.
pub uninterp spec fn path_file_stem(path: Seq<char>) -> Option<Seq<char>>;

/// Calls `std::path::Path::parent` on `path`; the contract claims only
/// that the result depends on the path's text alone.
#[verifier::external_body]
fn parent_of(path: &str) -> (r: Option<String>)
    ensures
        opt_view(r) == path_parent(path@),
{
    std::path::Path::new(path).parent().map(|p| p.to_string_lossy().into_owned())
}

/// Calls `std::path::Path::file_name` on `path`; the contract claims only
/// that the result depends on the path's text alone.
#[verifier::external_body]
fn file_name_of(path: &str) -> (r: Option<String>)
    ensures
        opt_view(r) == path_file_name(path@),
{
    std::path::Path::new(path).file_name().map(|n| n.to_string_lossy().into_owned())
}

/// Calls `std::path::Path::file_stem` on `path`; the contract claims only
/// that the result depends on the path's text alone.
#[verifier::external_body]
fn file_stem_of(path: &str) -> (r: Option<String>)
    ensures
        opt_view(r) == path_file_stem(path@),
{
    std::path::Path::new(path).file_stem().map(|n| n.to_string_lossy().into_owned())
}

/// The geode key of a symbol file: the name of its directory, else its
/// file stem, else `symbol`.
pub open spec fn symbol_geode_key_of(path: Seq<char>) -> Seq<char> {
    match path_parent(path) {
        Some(parent) => match path_file_name(parent) {
            Some(n) => n,
            None => match path_file_stem(path) {
                Some(s) => s,
                None => "symbol"@,
            },
        },
        None => match path_file_stem(path) {
            Some(s) => s,
            None => "symbol"@,
        },
    }
}

/// The strings of `files` in string order, each once: what sorting them
/// and dropping repeats gives.
pub fn sorted_unique(files: &Vec<String>) -> (r: Vec<String>)
    ensures
        views(r@) == members(with_members(Seq::empty(), views(files@))),
        sorted_keys(with_members(Seq::empty(), views(files@))),
{
    let mut set: StrMap<()> = StrMap::new();
    let n = files.len();
    let mut i: usize = 0;
    assert(views(files@).take(0) =~= Seq::<Seq<char>>::empty());
    assert(sorted_keys(Seq::<(Seq<char>, ())>::empty()));
    while i < n
        invariant
            n == files@.len(),
            i <= n,
            set@ == with_members(Seq::empty(), views(files@).take(i as int)),
            sorted_keys(set@),
        decreases n - i,
    {
        proof {
            assert(views(files@).take(i + 1).drop_last() =~= views(files@).take(i as int));
            assert(views(files@).take(i + 1).last() == files@[i as int]@);
        }
        set.insert(files[i].as_str(), ());
        i += 1;
    }
    assert(views(files@).take(n as int) =~= views(files@));
    let keys = set.keys();
    assert(views(keys@) =~= members(set@));
    keys
}

/// The geode key of the symbol file at `path`, as `symbol_geode_key_of`
/// states.
pub fn symbol_geode_key(path: &str) -> (r: String)
    ensures
        r@ == symbol_geode_key_of(path@),
{
    let from_dir = match parent_of(path) {
        Some(parent) => file_name_of(parent.as_str()),
        None => None,
    };
    match from_dir {
        Some(n) => n,
        None => match file_stem_of(path) {
            Some(s) => s,
            None => owned("symbol"),
        },
    }
}


// ----- what every step keeps -----

/// Every map of the repository is in key order.
pub open spec fn acc_sorted(a: RepoAcc) -> bool {
    &&& sorted_keys(a.patients)
    &&& sorted_keys(a.geodes)
    &&& sorted_keys(a.handles)
    &&& sorted_keys(a.resources)
    &&& sorted_keys(a.sources)
}

/// The geode under `k`, if any, belongs to a patient that is there.
pub open spec fn geode_ok(a: RepoAcc, k: Seq<char>) -> bool {
    match key_value(a.geodes, k) {
        Some(x) => has_key(a.patients, x.patient),
        None => true,
    }
}

/// The handle under `k`, if any, belongs to a geode that is there.
pub open spec fn handle_ok(a: RepoAcc, k: Seq<char>) -> bool {
    match key_value(a.handles, k) {
        Some(x) => has_key(a.geodes, x.geode),
        None => true,
    }
}

/// The resource under `k`, if any, belongs to a geode that is there.
pub open spec fn resource_ok(a: RepoAcc, k: Seq<char>) -> bool {
    match key_value(a.resources, k) {
        Some(x) => has_key(a.geodes, x.geode),
        None => true,
    }
}

/// Every geode's patient is a patient, and every handle's and resource's
/// geode is a geode.
pub open spec fn references_hold(a: RepoAcc) -> bool {
    &&& forall|k: Seq<char>| #[trigger] geode_ok(a, k)
    &&& forall|k: Seq<char>| #[trigger] handle_ok(a, k)
    &&& forall|k: Seq<char>| #[trigger] resource_ok(a, k)
}

/// The resource under `k` in `r` belongs to `geode` or to the geode it
/// belonged to in `before`.
pub open spec fn resource_from(r: Seq<(Seq<char>, ResourceAcc)>, before: Seq<(Seq<char>, ResourceAcc)>, geode: Seq<char>, k: Seq<char>) -> bool {
    match key_value(r, k) {
        Some(x) => x.geode == geode || match key_value(before, k) {
            Some(y) => y.geode == x.geode,
            None => false,
        },
        None => true,
    }
}

/// The handle under `k` in `h` belongs to `geode` or to the geode it
/// belonged to in `before`.
pub open spec fn handle_from(h: Seq<(Seq<char>, HandleAcc)>, before: Seq<(Seq<char>, HandleAcc)>, geode: Seq<char>, k: Seq<char>) -> bool {
    match key_value(h, k) {
        Some(x) => x.geode == geode || match key_value(before, k) {
            Some(y) => y.geode == x.geode,
            None => false,
        },
        None => true,
    }
}

proof fn lemma_relate_all_sorted(srcs: SourceMapSeq, files: Seq<Seq<char>>, patient: Seq<char>, geode: Seq<char>, resource: Option<Seq<char>>, handle: Option<Seq<char>>, artifact: Seq<char>)
    requires
        sorted_keys(srcs),
    ensures
        sorted_keys(relate_all(srcs, files, patient, geode, resource, handle, artifact)),
    decreases files.len(),
{
    if files.len() > 0 {
        let prev = relate_all(srcs, files.drop_last(), patient, geode, resource, handle, artifact);
        lemma_relate_all_sorted(srcs, files.drop_last(), patient, geode, resource, handle, artifact);
        crate::strmap::lemma_with_key_sorted(prev, files.last(), relate(get_or(prev, files.last(), new_source()), patient, geode, resource, handle, artifact));
    }
}

proof fn lemma_relate_joined_sorted(srcs: SourceMapSeq, files: Seq<Seq<char>>, patient: Seq<char>, geode: Seq<char>, root: Seq<char>)
    requires
        sorted_keys(srcs),
    ensures
        sorted_keys(relate_joined(srcs, files, patient, geode, root)),
    decreases files.len(),
{
    if files.len() > 0 {
        let prev = relate_joined(srcs, files.drop_last(), patient, geode, root);
        lemma_relate_joined_sorted(srcs, files.drop_last(), patient, geode, root);
        crate::strmap::lemma_with_key_sorted(prev, files.last(), relate(get_or(prev, files.last(), new_source()), patient, geode, None, None, path_join(root, files.last())));
    }
}

proof fn lemma_gp_resources(res: Seq<(Seq<char>, ResourceAcc)>, rks: Seq<Seq<char>>, patient: Seq<char>, geode: Seq<char>, artifact: Seq<char>)
    requires
        sorted_keys(res),
    ensures
        sorted_keys(gp_resources(res, rks, patient, geode, artifact)),
        forall|k: Seq<char>| #[trigger] resource_from(gp_resources(res, rks, patient, geode, artifact), res, geode, k),
    decreases rks.len(),
{
    if rks.len() > 0 {
        let prev = gp_resources(res, rks.drop_last(), patient, geode, artifact);
        lemma_gp_resources(res, rks.drop_last(), patient, geode, artifact);
        let rk = rks.last();
        let r = get_or(prev, rk, new_resource(patient, geode, "gp-resource"@));
        let v = ResourceAcc { artifact_paths: with_member(r.artifact_paths, artifact), ..r };
        assert forall|k: Seq<char>| #[trigger] resource_from(gp_resources(res, rks, patient, geode, artifact), res, geode, k) by {
            lemma_value_with(prev, rk, v, k);
            assert(resource_from(prev, res, geode, k));
        }
        lemma_value_with(prev, rk, v, rk);
    }
}

/// What the segments of one symbol file do to the handles and resources:
/// each new or changed entry belongs to `geode` or keeps its geode; the
/// geode's patient stays.
proof fn lemma_segments_fold(st: SymState, f: PcGeosSymbolVmFile, segs: Seq<ObjSegmentDescriptor>, maps: Seq<SourceFileMapModel>, patient: Seq<char>, geode: Seq<char>, path: Seq<char>)
    requires
        sorted_keys(st.handles),
        sorted_keys(st.resources),
        sorted_keys(st.sources),
    ensures
        ({
            let r = segments_fold(st, f, segs, maps, patient, geode, path);
            &&& r.g.patient == st.g.patient
            &&& sorted_keys(r.handles)
            &&& sorted_keys(r.resources)
            &&& sorted_keys(r.sources)
            &&& forall|k: Seq<char>| #[trigger] handle_from(r.handles, st.handles, geode, k)
            &&& forall|k: Seq<char>| #[trigger] resource_from(r.resources, st.resources, geode, k)
        }),
    decreases segs.len(),
{
    if segs.len() > 0 {
        let prev = segments_fold(st, f, segs.drop_last(), maps, patient, geode, path);
        lemma_segments_fold(st, f, segs.drop_last(), maps, patient, geode, path);
        let seg = segs.last();
        let r = segments_fold(st, f, segs, maps, patient, geode, path);
        assert(r == segment_step(prev, f, seg, maps, patient, geode, path));
        let hk = handle_key(geode, seg.descriptor_offset);
        let rname = segment_name(f, seg);
        let fl = members(segment_files(maps, seg.descriptor_offset));
        let label = segment_label(seg.segment_type);
        let h0 = get_or(prev.handles, hk, new_handle(patient, geode));
        let h = HandleAcc {
            kind: label,
            data_handle: if seg.data != 0 { Some(seg.data) } else { None },
            resource: match rname {
                Some(n) => Some(geode + ":"@ + n),
                None => None,
            },
            artifact_path: path,
            source_files: with_members(h0.source_files, fl),
            ..h0
        };
        assert(r.handles == with_key(prev.handles, hk, h));
        lemma_value_with(prev.handles, hk, h, hk);
        assert forall|k: Seq<char>| #[trigger] handle_from(r.handles, st.handles, geode, k) by {
            lemma_value_with(prev.handles, hk, h, k);
            assert(handle_from(prev.handles, st.handles, geode, k));
        }
        let srcs = relate_all(prev.sources, fl, patient, geode, None, Some(hk), path);
        lemma_relate_all_sorted(prev.sources, fl, patient, geode, None, Some(hk), path);
        match rname {
            None => {
                assert forall|k: Seq<char>| #[trigger] resource_from(r.resources, st.resources, geode, k) by {
                    assert(resource_from(prev.resources, st.resources, geode, k));
                }
            },
            Some(n) => {
                let rk = geode + ":"@ + n;
                let r0 = get_or(prev.resources, rk, new_resource(patient, geode, label));
                let rv = ResourceAcc {
                    handle: Some(hk),
                    artifact_paths: with_member(r0.artifact_paths, path),
                    source_files: with_members(r0.source_files, fl),
                    ..r0
                };
                assert(r.resources == with_key(prev.resources, rk, rv));
                lemma_value_with(prev.resources, rk, rv, rk);
                assert forall|k: Seq<char>| #[trigger] resource_from(r.resources, st.resources, geode, k) by {
                    lemma_value_with(prev.resources, rk, rv, k);
                    assert(resource_from(prev.resources, st.resources, geode, k));
                }
                lemma_relate_all_sorted(srcs, fl, patient, geode, Some(rk), Some(hk), path);
            },
        }
    }
}

/// Adding a manifest keeps every map in key order, every geode's patient a
/// patient and every handle's and resource's geode a geode.
pub proof fn law_manifest_step_keeps_references(acc: RepoAcc, m: ManifestModel, root: Option<Seq<char>>, files: Seq<Seq<char>>)
    requires
        acc_sorted(acc),
        references_hold(acc),
    ensures
        match manifest_step(acc, m, root, files) {
            Ok(a) => acc_sorted(a) && references_hold(a),
            Err(_) => true,
        },
{
    match (m.name, root) {
        (Some(name), Some(root)) => {
            let a = manifest_step(acc, m, Some(root), files)->Ok_0;
            let pk = patient_key_of(name);
            let rks = resource_keys(name, m.resources);
            let g0 = get_or(acc.geodes, name, new_geode(pk));
            let g = GeodeAcc {
                permanent_name: Some(name),
                long_name: m.long_name,
                geode_type: with_members(g0.geode_type, m.geode_type),
                libraries: with_members(g0.libraries, m.libraries),
                artifact_paths: with_member(g0.artifact_paths, m.path),
                source_files: with_members(g0.source_files, files),
                resources: with_members(g0.resources, rks),
                ..g0
            };
            let p0 = get_or(acc.patients, pk, new_patient());
            let p = PatientAcc {
                geodes: with_member(p0.geodes, name),
                artifact_paths: with_member(p0.artifact_paths, m.path),
                source_files: with_members(p0.source_files, files),
                resources: with_members(p0.resources, rks),
                ..p0
            };
            assert(a.patients == with_key(acc.patients, pk, p));
            assert(a.geodes == with_key(acc.geodes, name, g));
            lemma_value_with(acc.patients, pk, p, pk);
            lemma_value_with(acc.geodes, name, g, name);
            lemma_gp_resources(acc.resources, rks, pk, name, m.path);
            lemma_relate_joined_sorted(acc.sources, files, pk, name, root);
            assert forall|k: Seq<char>| #[trigger] geode_ok(a, k) by {
                lemma_value_with(acc.geodes, name, g, k);
                assert(geode_ok(acc, k));
                assert(geode_ok(acc, name));
                match key_value(a.geodes, k) {
                    Some(x) => lemma_keys_with(acc.patients, pk, p, x.patient),
                    None => {},
                }
            }
            assert forall|k: Seq<char>| #[trigger] handle_ok(a, k) by {
                assert(handle_ok(acc, k));
                match key_value(a.handles, k) {
                    Some(x) => lemma_keys_with(acc.geodes, name, g, x.geode),
                    None => {},
                }
            }
            assert forall|k: Seq<char>| #[trigger] resource_ok(a, k) by {
                assert(resource_ok(acc, k));
                assert(resource_from(a.resources, acc.resources, name, k));
                match key_value(a.resources, k) {
                    Some(x) => lemma_keys_with(acc.geodes, name, g, x.geode),
                    None => {},
                }
            }
        },
        _ => {},
    }
}

/// Adding a symbol file keeps every map in key order, every geode's
/// patient a patient and every handle's and resource's geode a geode.
pub proof fn law_symbol_step_keeps_references(acc: RepoAcc, path: Seq<char>, geode: Seq<char>, f: PcGeosSymbolVmFile)
    requires
        acc_sorted(acc),
        references_hold(acc),
    ensures
        match symbol_step(acc, path, geode, f) {
            Ok(a) => acc_sorted(a) && references_hold(a),
            Err(_) => true,
        },
{
    match source_maps_result(f) {
        Some(Ok(maps)) => {
            let a = symbol_step(acc, path, geode, f)->Ok_0;
            let pk = patient_key_of(geode);
            let keys = map_keys(maps);
            let g0 = get_or(acc.geodes, geode, new_geode(pk));
            let g = GeodeAcc {
                artifact_paths: with_member(g0.artifact_paths, path),
                libraries: with_member(g0.libraries, "symbol-vm"@),
                source_files: with_members(g0.source_files, keys),
                ..g0
            };
            let p0 = get_or(acc.patients, pk, new_patient());
            let p = PatientAcc {
                geodes: with_member(p0.geodes, geode),
                artifact_paths: with_member(p0.artifact_paths, path),
                source_files: with_members(p0.source_files, keys),
                ..p0
            };
            let srcs0 = relate_all(acc.sources, keys, pk, geode, None, None, path);
            lemma_relate_all_sorted(acc.sources, keys, pk, geode, None, None, path);
            let st0 = SymState { g, p, handles: acc.handles, resources: acc.resources, sources: srcs0 };
            let st = segments_fold(st0, f, f.header.segments@, maps, pk, geode, path);
            lemma_segments_fold(st0, f, f.header.segments@, maps, pk, geode, path);
            assert(a.patients == with_key(acc.patients, pk, st.p));
            assert(a.geodes == with_key(acc.geodes, geode, st.g));
            assert(a.handles == st.handles);
            assert(a.resources == st.resources);
            lemma_value_with(acc.patients, pk, st.p, pk);
            lemma_value_with(acc.geodes, geode, st.g, geode);
            assert forall|k: Seq<char>| #[trigger] geode_ok(a, k) by {
                lemma_value_with(acc.geodes, geode, st.g, k);
                assert(geode_ok(acc, k));
                assert(geode_ok(acc, geode));
                match key_value(a.geodes, k) {
                    Some(x) => lemma_keys_with(acc.patients, pk, st.p, x.patient),
                    None => {},
                }
            }
            assert forall|k: Seq<char>| #[trigger] handle_ok(a, k) by {
                assert(handle_ok(acc, k));
                assert(handle_from(st.handles, st0.handles, geode, k));
                assert(handle_from(a.handles, acc.handles, geode, k));
                match key_value(a.handles, k) {
                    Some(x) => lemma_keys_with(acc.geodes, geode, st.g, x.geode),
                    None => {},
                }
            }
            assert forall|k: Seq<char>| #[trigger] resource_ok(a, k) by {
                assert(resource_ok(acc, k));
                assert(resource_from(st.resources, st0.resources, geode, k));
                assert(resource_from(a.resources, acc.resources, geode, k));
                match key_value(a.resources, k) {
                    Some(x) => lemma_keys_with(acc.geodes, geode, st.g, x.geode),
                    None => {},
                }
            }
        },
        _ => {},
    }
}

} // verus!
