use vstd::prelude::*;

verus! {

/// The type identifier under which mesh assets are registered.
pub const MESH_TYPE_UUID: &'static str = "8ecbac0f-f545-4473-ad43-e1f4243af51e";

/// The type identifier under which material assets are registered.
pub const MATERIAL_TYPE_UUID: &'static str = "7494888b-c082-457b-aacf-517228cc0c22";

/// Where an asset's content comes from: an inline string in the asset file,
/// or a file in the project's assets folder.
#[derive(Debug)]
pub enum AssetSourceType {
    AsString(String),
    AsFile(String),
}

/// A serializable, content-addressable descriptor of one asset: its content
/// source, its type identifier, and a numeric discriminator that together
/// with the type identifier forms its stable key.
#[derive(Debug)]
pub struct AssetSource {
    pub source_type: AssetSourceType,
    pub type_uuid: String,
    pub uid: u64,
}

/// An indirect reference into a per-type asset table.
#[derive(Debug)]
pub struct HandleId {
    pub type_uuid: String,
    pub uid: u64,
}

impl HandleId {
    pub open spec fn key(self) -> (Seq<char>, u64) {
        (self.type_uuid@, self.uid)
    }

    pub fn clone(&self) -> (r: HandleId)
        ensures
            r.key() == self.key(),
    {
        HandleId { type_uuid: self.type_uuid.clone(), uid: self.uid }
    }

    pub fn same_key(&self, other: &HandleId) -> (r: bool)
        ensures
            r == (self.key() == other.key()),
    {
        let eq = self.type_uuid == other.type_uuid && self.uid == other.uid;
        proof {
            if self.type_uuid@ == other.type_uuid@ && self.uid == other.uid {
                assert(self.key() == other.key());
            }
        }
        eq
    }
}

/// The stable key an asset source addresses: its type identifier paired
/// with its numeric discriminator.
pub open spec fn source_key(s: AssetSource) -> (Seq<char>, u64) {
    (s.type_uuid@, s.uid)
}

/// The value held in an asset table: the shape a mesh was built from, or a
/// material's colour in its serialized text form.
#[derive(Debug, PartialEq, Eq, Structural, Clone, Copy)]
pub enum MeshMaterial {
    Cube,
    Plane,
    Sphere,
}

impl MeshMaterial {
    /// The string codec under which mesh sources are persisted.
    pub open spec fn spec_label(self) -> Seq<char> {
        match self {
            MeshMaterial::Cube => "Cube"@,
            MeshMaterial::Plane => "Plane"@,
            MeshMaterial::Sphere => "Sphere"@,
        }
    }

    pub fn label(&self) -> (r: &'static str)
        ensures
            r@ == self.spec_label(),
    {
        match self {
            MeshMaterial::Cube => "Cube",
            MeshMaterial::Plane => "Plane",
            MeshMaterial::Sphere => "Sphere",
        }
    }

    /// The inverse of the codec: exactly the three labels parse.
    pub open spec fn spec_parse(s: Seq<char>) -> Option<MeshMaterial> {
        if s == "Cube"@ {
            Some(MeshMaterial::Cube)
        } else if s == "Plane"@ {
            Some(MeshMaterial::Plane)
        } else if s == "Sphere"@ {
            Some(MeshMaterial::Sphere)
        } else {
            None
        }
    }

    pub fn parse(s: &str) -> (r: Option<MeshMaterial>)
        ensures
            r == MeshMaterial::spec_parse(s@),
    {
        if str_eq(s, "Cube") {
            Some(MeshMaterial::Cube)
        } else if str_eq(s, "Plane") {
            Some(MeshMaterial::Plane)
        } else if str_eq(s, "Sphere") {
            Some(MeshMaterial::Sphere)
        } else {
            None
        }
    }
}

/// Round trip of the mesh codec: every shape's label parses back to it.
pub proof fn lemma_mesh_codec_round_trip(m: MeshMaterial)
    ensures
        MeshMaterial::spec_parse(m.spec_label()) == Some(m),
{
    reveal_strlit("Cube");
    reveal_strlit("Plane");
    reveal_strlit("Sphere");
    assert("Cube"@.len() == 4);
    assert("Plane"@.len() == 5);
    assert("Sphere"@.len() == 6);
}

/// Whether two string slices hold the same characters.
pub fn str_eq(a: &str, b: &str) -> (r: bool)
    ensures
        r == (a@ == b@),
{
    let ax = a.as_bytes();
    let bx = b.as_bytes();
    let r = compare_bytes(ax, bx);
    proof {
        vstd::utf8::encode_utf8_decode_utf8(a@);
        vstd::utf8::encode_utf8_decode_utf8(b@);
    }
    r
}

fn compare_bytes(a: &[u8], b: &[u8]) -> (r: bool)
    ensures
        r == (a@ == b@),
{
    if a.len() != b.len() {
        proof {
            assert(a@.len() != b@.len());
        }
        return false;
    }
    let n = a.len();
    let mut i: usize = 0;
    while i < n
        invariant
            i <= n,
            n == a@.len(),
            n == b@.len(),
            forall|j: int| 0 <= j < i ==> a@[j] == b@[j],
        decreases n - i,
    {
        if a[i] != b[i] {
            return false;
        }
        i += 1;
    }
    proof {
        assert(a@ =~= b@);
    }
    true
}

/// One loaded asset's value, as the model holds it: the shape a mesh was
/// built from, or a material colour in its serialized text form.
#[derive(Debug, PartialEq)]
pub enum AssetValue {
    MeshAsset(MeshMaterial),
    MaterialAsset(String),
}

/// The mathematical content of an asset value.
pub ghost enum AssetValueView {
    MeshView(MeshMaterial),
    MaterialView(Seq<char>),
}

impl View for AssetValue {
    type V = AssetValueView;

    open spec fn view(&self) -> AssetValueView {
        match self {
            AssetValue::MeshAsset(m) => AssetValueView::MeshView(*m),
            AssetValue::MaterialAsset(s) => AssetValueView::MaterialView(s@),
        }
    }
}

impl AssetValue {
    pub fn duplicate(&self) -> (r: AssetValue)
        ensures
            r@ == self@,
    {
        match self {
            AssetValue::MeshAsset(m) => AssetValue::MeshAsset(*m),
            AssetValue::MaterialAsset(s) => AssetValue::MaterialAsset(s.clone()),
        }
    }
}

/// The asset store, keyed by handle: later insertions shadow earlier ones.
#[derive(Debug)]
pub struct AssetTable {
    pub entries: Vec<(HandleId, AssetValue)>,
}

/// The map an entry listing denotes, with later entries shadowing earlier
/// ones.
pub open spec fn as_map(entries: Seq<(HandleId, AssetValue)>) -> Map<
    (Seq<char>, u64),
    AssetValueView,
>
    decreases entries.len(),
{
    if entries.len() == 0 {
        Map::empty()
    } else {
        as_map(entries.drop_last()).insert(entries.last().0.key(), entries.last().1@)
    }
}

impl AssetTable {
    pub open spec fn view(&self) -> Map<(Seq<char>, u64), AssetValueView> {
        as_map(self.entries@)
    }

    pub fn new() -> (r: AssetTable)
        ensures
            r@ == Map::<(Seq<char>, u64), AssetValueView>::empty(),
    {
        AssetTable { entries: Vec::new() }
    }

    /// Stores `value` under `handle`, shadowing any earlier value.
    pub fn set(&mut self, handle: HandleId, value: AssetValue)
        ensures
            final(self)@ == old(self)@.insert(handle.key(), value@),
    {
        self.entries.push((handle, value));
        proof {
            assert(self.entries@.drop_last() =~= old(self).entries@);
        }
    }

    fn get_at(&self, handle: &HandleId, i: usize) -> (r: Option<&AssetValue>)
        requires
            i <= self.entries@.len(),
        ensures
            match r {
                Some(v) => as_map(self.entries@.subrange(0, i as int)).contains_key(handle.key())
                    && v@ == as_map(self.entries@.subrange(0, i as int))[handle.key()],
                None => !as_map(self.entries@.subrange(0, i as int)).contains_key(handle.key()),
            },
        decreases i,
    {
        if i == 0 {
            proof {
                assert(self.entries@.subrange(0, 0) =~= Seq::<(HandleId, AssetValue)>::empty());
            }
            None
        } else {
            let ghost pre = self.entries@.subrange(0, i as int);
            proof {
                assert(pre.drop_last() =~= self.entries@.subrange(0, i as int - 1));
                assert(pre.last() == self.entries@[i as int - 1]);
            }
            if self.entries[i - 1].0.same_key(handle) {
                Some(&self.entries[i - 1].1)
            } else {
                self.get_at(handle, i - 1)
            }
        }
    }

    /// The value stored under `handle`, if any.
    pub fn get(&self, handle: &HandleId) -> (r: Option<&AssetValue>)
        ensures
            match r {
                Some(v) => self@.contains_key(handle.key()) && v@ == self@[handle.key()],
                None => !self@.contains_key(handle.key()),
            },
    {
        let r = self.get_at(handle, self.entries.len());
        proof {
            assert(self.entries@.subrange(0, self.entries@.len() as int) =~= self.entries@);
        }
        r
    }
}

/// A tracked asset: its descriptor, the transient handle its load produced,
/// and — once attached — the stable handle keyed by the descriptor.
#[derive(Debug)]
pub struct AssetEntry {
    pub source: AssetSource,
    pub original: HandleId,
    pub attached: Option<HandleId>,
}

/// The string codec a registered asset type uses.
#[derive(Debug, Clone, Copy, PartialEq, Eq, Structural)]
pub enum AssetKind {
    MeshKind,
    MaterialKind,
}

/// The per-type asset callbacks, keyed by type identifier; looking up an
/// unregistered identifier is a configuration error the callers rule out.
#[derive(Debug)]
pub struct AssetRegistry {
    pub kinds: Vec<(String, AssetKind)>,
}

/// The value that the create callback of codec `kind` builds from a source,
/// or nothing where the source is rejected: a mesh source must hold one of
/// the shape labels, and file-backed sources are outside this codec path.
pub open spec fn spec_created(kind: AssetKind, source: AssetSource) -> Option<AssetValueView> {
    match (kind, source.source_type) {
        (AssetKind::MeshKind, AssetSourceType::AsString(raw)) => match MeshMaterial::spec_parse(
            raw@,
        ) {
            Some(m) => Some(AssetValueView::MeshView(m)),
            None => None,
        },
        (AssetKind::MaterialKind, AssetSourceType::AsString(raw)) => Some(
            AssetValueView::MaterialView(raw@),
        ),
        (_, AssetSourceType::AsFile(_)) => None,
    }
}

/// The codec map a kind listing denotes, with later entries shadowing
/// earlier ones.
pub open spec fn kinds_map(entries: Seq<(String, AssetKind)>) -> Map<Seq<char>, AssetKind>
    decreases entries.len(),
{
    if entries.len() == 0 {
        Map::empty()
    } else {
        kinds_map(entries.drop_last()).insert(entries.last().0@, entries.last().1)
    }
}

impl AssetRegistry {
    pub open spec fn view(&self) -> Map<Seq<char>, AssetKind> {
        kinds_map(self.kinds@)
    }

    pub fn new() -> (r: AssetRegistry)
        ensures
            r@ == Map::<Seq<char>, AssetKind>::empty(),
    {
        AssetRegistry { kinds: Vec::new() }
    }

    /// Registers the codec for one asset type identifier.
    pub fn register(&mut self, type_uuid: &str, kind: AssetKind)
        ensures
            final(self)@ == old(self)@.insert(type_uuid@, kind),
    {
        self.kinds.push((String::from_str(type_uuid), kind));
        proof {
            assert(self.kinds@.drop_last() =~= old(self).kinds@);
        }
    }

    /// The registry as the editor sets it up: mesh and material codecs.
    pub fn with_defaults() -> (r: AssetRegistry)
        ensures
            r@ == Map::<Seq<char>, AssetKind>::empty().insert(
                MESH_TYPE_UUID@,
                AssetKind::MeshKind,
            ).insert(MATERIAL_TYPE_UUID@, AssetKind::MaterialKind),
    {
        let mut r = AssetRegistry::new();
        r.register(MESH_TYPE_UUID, AssetKind::MeshKind);
        r.register(MATERIAL_TYPE_UUID, AssetKind::MaterialKind);
        r
    }

    fn lookup_at(&self, type_uuid: &str, i: usize) -> (r: Option<AssetKind>)
        requires
            i <= self.kinds@.len(),
        ensures
            match r {
                Some(k) => kinds_map(self.kinds@.subrange(0, i as int)).contains_key(type_uuid@)
                    && k == kinds_map(self.kinds@.subrange(0, i as int))[type_uuid@],
                None => !kinds_map(self.kinds@.subrange(0, i as int)).contains_key(type_uuid@),
            },
        decreases i,
    {
        if i == 0 {
            proof {
                assert(self.kinds@.subrange(0, 0) =~= Seq::<(String, AssetKind)>::empty());
            }
            None
        } else {
            let ghost pre = self.kinds@.subrange(0, i as int);
            proof {
                assert(pre.drop_last() =~= self.kinds@.subrange(0, i as int - 1));
                assert(pre.last() == self.kinds@[i as int - 1]);
            }
            if str_eq(self.kinds[i - 1].0.as_str(), type_uuid) {
                Some(self.kinds[i - 1].1)
            } else {
                self.lookup_at(type_uuid, i - 1)
            }
        }
    }

    /// The codec registered for the identifier, if any.
    pub fn lookup(&self, type_uuid: &str) -> (r: Option<AssetKind>)
        ensures
            match r {
                Some(k) => self@.contains_key(type_uuid@) && k == self@[type_uuid@],
                None => !self@.contains_key(type_uuid@),
            },
    {
        let r = self.lookup_at(type_uuid, self.kinds.len());
        proof {
            assert(self.kinds@.subrange(0, self.kinds@.len() as int) =~= self.kinds@);
        }
        r
    }

    /// The create callback: builds the value an inline source describes and
    /// stores it under the fresh transient handle the store produced. A
    /// mesh source must hold one of the shape labels; a file-backed source
    /// is not supported by this codec path.
    pub fn create(&self, source: &AssetSource, table: &mut AssetTable, fresh_uid: u64) -> (r:
        Result<HandleId, crate::error::Error>)
        requires
            self@.contains_key(source.type_uuid@),
        ensures
            match spec_created(self@[source.type_uuid@], *source) {
                Some(v) => r matches Ok(h) && h.key() == (source.type_uuid@, fresh_uid)
                    && final(table)@ == old(table)@.insert((source.type_uuid@, fresh_uid), v),
                None => r is Err && final(table)@ == old(table)@,
            },
    {
        let kind = match self.lookup(source.type_uuid.as_str()) {
            Some(k) => k,
            None => {
                return Err(crate::error::Error::new("ASSET::CREATE::UNREGISTERED_TYPE"));
            },
        };
        match &source.source_type {
            AssetSourceType::AsString(raw) => {
                let handle = HandleId { type_uuid: source.type_uuid.clone(), uid: fresh_uid };
                match kind {
                    AssetKind::MeshKind => match MeshMaterial::parse(raw.as_str()) {
                        Some(m) => {
                            table.set(handle.clone(), AssetValue::MeshAsset(m));
                            Ok(handle)
                        },
                        None => Err(crate::error::Error::new("ASSET::CREATE::BAD_MESH_SOURCE")),
                    },
                    AssetKind::MaterialKind => {
                        table.set(handle.clone(), AssetValue::MaterialAsset(raw.clone()));
                        Ok(handle)
                    },
                }
            },
            AssetSourceType::AsFile(_) => Err(
                crate::error::Error::new("ASSET::CREATE::FILE_SOURCE_UNSUPPORTED"),
            ),
        }
    }

    /// The update callback: rewrites an inline source to the current
    /// in-memory state of its asset — a mesh source is its own source of
    /// truth and stays as it is, a material source becomes the stored colour
    /// text; a file-backed source is left alone.
    pub fn update_source(&self, source: &mut AssetSource, table: &AssetTable)
        requires
            self@.contains_key(old(source).type_uuid@),
            (old(source).source_type matches AssetSourceType::AsString(_) && self@[old(
                source,
            ).type_uuid@] == AssetKind::MaterialKind) ==> table@.contains_key(
                source_key(*old(source)),
            ) && table@[source_key(*old(source))] is MaterialView,
        ensures
            final(source).type_uuid == old(source).type_uuid,
            final(source).uid == old(source).uid,
            match (self@[old(source).type_uuid@], &old(source).source_type) {
                (AssetKind::MaterialKind, AssetSourceType::AsString(_)) => (
                final(source).source_type matches AssetSourceType::AsString(s) && table@[
                    source_key(*old(source))
                ] == AssetValueView::MaterialView(s@)),
                _ => final(source).source_type == old(source).source_type,
            },
    {
        let is_inline = match &source.source_type {
            AssetSourceType::AsString(_) => true,
            AssetSourceType::AsFile(_) => false,
        };
        if !is_inline {
            return ;
        }
        let kind = match self.lookup(source.type_uuid.as_str()) {
            Some(k) => k,
            None => {
                return ;
            },
        };
        match kind {
            AssetKind::MeshKind => {},
            AssetKind::MaterialKind => {
                let handle = HandleId { type_uuid: source.type_uuid.clone(), uid: source.uid };
                match table.get(&handle) {
                    Some(AssetValue::MaterialAsset(s)) => {
                        source.source_type = AssetSourceType::AsString(s.clone());
                    },
                    _ => {},
                }
            },
        }
    }

    /// The attach callback: once the entry's transient handle resolves to a
    /// loaded value, clones that value and re-keys it under the stable
    /// handle derived from the source's `(type identifier, uid)` pair, so
    /// saved scenes that reference assets by uid stay valid across reloads.
    /// Returns whether the original handle resolved.
    pub fn attach_asset(&self, entry: &mut AssetEntry, table: &mut AssetTable) -> (ok: bool)
        requires
            self@.contains_key(old(entry).source.type_uuid@),
        ensures
            ok <==> old(table)@.contains_key(old(entry).original.key()),
            ok ==> final(table)@ == old(table)@.insert(
                source_key(old(entry).source),
                old(table)@[old(entry).original.key()],
            ) && (final(entry).attached matches Some(h) && h.key() == source_key(
                old(entry).source,
            )),
            !ok ==> final(table)@ == old(table)@ && *final(entry) == *old(entry),
            final(entry).source == old(entry).source,
            final(entry).original == old(entry).original,
    {
        let value = match table.get(&entry.original) {
            Some(v) => v.duplicate(),
            None => {
                return false;
            },
        };
        let stable = HandleId { type_uuid: entry.source.type_uuid.clone(), uid: entry.source.uid };
        let attached = stable.clone();
        table.set(stable, value);
        entry.attached = Some(attached);
        true
    }
}

/// Asset attach stability: what attach leaves under a source's stable key
/// is the value its original handle held, so two attaches whose sources
/// share `(type identifier, uid)` and whose originals hold equal values
/// leave lookups at that key equal.
pub proof fn lemma_attach_stability(
    t1: Map<(Seq<char>, u64), AssetValueView>,
    t2: Map<(Seq<char>, u64), AssetValueView>,
    e1: AssetEntry,
    e2: AssetEntry,
)
    requires
        source_key(e1.source) == source_key(e2.source),
        t1.contains_key(e1.original.key()),
        t2.contains_key(e2.original.key()),
        t1[e1.original.key()] == t2[e2.original.key()],
    ensures
        t1.insert(source_key(e1.source), t1[e1.original.key()])[source_key(e1.source)]
            == t2.insert(source_key(e2.source), t2[e2.original.key()])[source_key(e2.source)],
{
}


/// The condition under which one source can be refreshed: its type is
/// registered, and an inline material source resolves to a stored material.
pub open spec fn can_update(
    reg: AssetRegistry,
    source: AssetSource,
    table: AssetTable,
) -> bool {
    &&& reg@.contains_key(source.type_uuid@)
    &&& ((source.source_type matches AssetSourceType::AsString(_) && reg@[source.type_uuid@]
        == AssetKind::MaterialKind) ==> table@.contains_key(source_key(source)) && table@[
        source_key(source)
    ] is MaterialView)
}

impl AssetRegistry {
    /// Refreshes every recorded source to the current in-memory state of
    /// its asset, as done just before the asset file is rewritten.
    pub fn update_sources(&self, sources: &mut Vec<AssetSource>, table: &AssetTable)
        requires
            forall|i: int|
                0 <= i < old(sources)@.len() ==> can_update(*self, #[trigger] old(sources)@[i], *table),
        ensures
            final(sources)@.len() == old(sources)@.len(),
            forall|i: int|
                0 <= i < old(sources)@.len() ==> {
                    &&& (#[trigger] final(sources)@[i]).type_uuid == old(sources)@[i].type_uuid
                    &&& final(sources)@[i].uid == old(sources)@[i].uid
                    &&& (match (self@[old(sources)@[i].type_uuid@], &old(sources)@[i].source_type) {
                        (AssetKind::MaterialKind, AssetSourceType::AsString(_)) => (
                        final(sources)@[i].source_type matches AssetSourceType::AsString(t)
                            && table@[source_key(old(sources)@[i])]
                            == AssetValueView::MaterialView(t@)),
                        _ => final(sources)@[i].source_type == old(sources)@[i].source_type,
                    })
                },
    {
        let ghost s0 = sources@;
        let n = sources.len();
        let mut i: usize = 0;
        while i < n
            invariant
                i <= n,
                n == sources@.len(),
                n == s0.len(),
                forall|j: int| i <= j < n ==> sources@[j] == s0[j],
                forall|j: int| 0 <= j < n ==> can_update(*self, #[trigger] s0[j], *table),
                forall|j: int|
                    0 <= j < i ==> {
                        &&& (#[trigger] sources@[j]).type_uuid == s0[j].type_uuid
                        &&& sources@[j].uid == s0[j].uid
                        &&& (match (self@[s0[j].type_uuid@], &s0[j].source_type) {
                            (AssetKind::MaterialKind, AssetSourceType::AsString(_)) => (
                            sources@[j].source_type matches AssetSourceType::AsString(t)
                                && table@[source_key(s0[j])] == AssetValueView::MaterialView(t@)),
                            _ => sources@[j].source_type == s0[j].source_type,
                        })
                    },
            decreases n - i,
        {
            let sslot = &mut sources[i];
            self.update_source(sslot, table);
            i += 1;
        }
    }
}

/// The lights the insert menu offers.
#[derive(Debug, Clone, Copy, PartialEq, Eq, Structural)]
pub enum Light {
    Spot,
    Point,
    Directional,
    Ambient,
}

impl Light {
    pub open spec fn spec_label(self) -> Seq<char> {
        match self {
            Light::Spot => "Spot"@,
            Light::Point => "Point"@,
            Light::Directional => "Directional"@,
            Light::Ambient => "Ambient"@,
        }
    }

    pub fn label(&self) -> (r: &'static str)
        ensures
            r@ == self.spec_label(),
    {
        match self {
            Light::Spot => "Spot",
            Light::Point => "Point",
            Light::Directional => "Directional",
            Light::Ambient => "Ambient",
        }
    }
}

/// The cameras the insert menu offers.
#[derive(Debug, Clone, Copy, PartialEq, Eq, Structural)]
pub enum Camera {
    Perspective,
    Orthographic,
}

impl Camera {
    pub open spec fn spec_label(self) -> Seq<char> {
        match self {
            Camera::Perspective => "Perspective"@,
            Camera::Orthographic => "Orthographic"@,
        }
    }

    pub fn label(&self) -> (r: &'static str)
        ensures
            r@ == self.spec_label(),
    {
        match self {
            Camera::Perspective => "Perspective",
            Camera::Orthographic => "Orthographic",
        }
    }
}

/// One item of the insert menu.
#[derive(Debug, Clone, Copy, PartialEq, Eq, Structural)]
pub enum SimpleObject {
    MeshMaterial(MeshMaterial),
    Light(Light),
    Camera(Camera),
}

impl SimpleObject {
    pub open spec fn spec_label(self) -> Seq<char> {
        match self {
            SimpleObject::MeshMaterial(m) => m.spec_label(),
            SimpleObject::Light(l) => l.spec_label(),
            SimpleObject::Camera(c) => c.spec_label(),
        }
    }

    pub fn label(&self) -> (r: &'static str)
        ensures
            r@ == self.spec_label(),
    {
        match self {
            SimpleObject::MeshMaterial(m) => m.label(),
            SimpleObject::Light(l) => l.label(),
            SimpleObject::Camera(c) => c.label(),
        }
    }
}

/// The asset source records that inserting a simple object registers: a
/// mesh object records its shape source and a material source holding the
/// default colour text the caller serialized; lights and cameras record the
/// cube source that backs their wireframe stand-in. The uids are those of
/// the transient handles the asset store produced.
pub fn simple_object_sources(
    obj: &SimpleObject,
    mesh_uid: u64,
    material_uid: u64,
    material_raw: &str,
) -> (r: Vec<AssetSource>)
    ensures
        (obj matches SimpleObject::MeshMaterial(m) ==> r@.len() == 2 && (
        r@[0].source_type matches AssetSourceType::AsString(x) && x@ == m.spec_label())
            && r@[0].type_uuid@ == MESH_TYPE_UUID@ && r@[0].uid == mesh_uid && (
        r@[1].source_type matches AssetSourceType::AsString(y) && y@ == material_raw@)
            && r@[1].type_uuid@ == MATERIAL_TYPE_UUID@ && r@[1].uid == material_uid),
        !(obj matches SimpleObject::MeshMaterial(m)) ==> r@.len() == 1 && (
        r@[0].source_type matches AssetSourceType::AsString(x) && x@ == "Cube"@)
            && r@[0].type_uuid@ == MESH_TYPE_UUID@ && r@[0].uid == mesh_uid,
{
    let mut out: Vec<AssetSource> = Vec::new();
    match obj {
        SimpleObject::MeshMaterial(m) => {
            out.push(
                AssetSource {
                    source_type: AssetSourceType::AsString(String::from_str(m.label())),
                    type_uuid: String::from_str(MESH_TYPE_UUID),
                    uid: mesh_uid,
                },
            );
            out.push(
                AssetSource {
                    source_type: AssetSourceType::AsString(String::from_str(material_raw)),
                    type_uuid: String::from_str(MATERIAL_TYPE_UUID),
                    uid: material_uid,
                },
            );
        },
        _ => {
            out.push(
                AssetSource {
                    source_type: AssetSourceType::AsString(String::from_str("Cube")),
                    type_uuid: String::from_str(MESH_TYPE_UUID),
                    uid: mesh_uid,
                },
            );
        },
    }
    out
}

} // verus!
