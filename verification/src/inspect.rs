use vstd::prelude::*;
use crate::assets::{AssetTable, AssetValueView, MATERIAL_TYPE_UUID};

verus! {

/// Component type key of the parent link, never shown by the inspector.
pub const PARENT_LINK_KEY: u64 = 101;

/// Component type key of the children list, never shown by the inspector.
pub const CHILDREN_LINK_KEY: u64 = 102;

/// Type key of handle-identifier internals, never shown by the inspector.
pub const HANDLE_ID_KEY: u64 = 103;

/// Type key of the selection marker, never shown by the inspector.
pub const SELECTED_MARKER_KEY: u64 = 104;

/// The payload a leaf editor edits. Numeric scalars are carried as their
/// plain bit patterns: the walker routes them between widget and value and
/// never computes on them.
#[derive(Debug, PartialEq)]
pub enum LeafValue {
    Unsigned(u64),
    Signed(i64),
    Scalar32(u32),
    Scalar64(u64),
    Boolean(bool),
    Text(String),
    Vector3(u32, u32, u32),
    Rotation(u32, u32, u32, u32),
    Color(u32, u32, u32, u32),
    HandleRef(u64),
}

/// The mathematical content of a leaf payload.
pub ghost enum LeafView {
    UnsignedV(u64),
    SignedV(i64),
    Scalar32V(u32),
    Scalar64V(u64),
    BooleanV(bool),
    TextV(Seq<char>),
    Vector3V(u32, u32, u32),
    RotationV(u32, u32, u32, u32),
    ColorV(u32, u32, u32, u32),
    HandleRefV(u64),
}

impl View for LeafValue {
    type V = LeafView;

    open spec fn view(&self) -> LeafView {
        match self {
            LeafValue::Unsigned(x) => LeafView::UnsignedV(*x),
            LeafValue::Signed(x) => LeafView::SignedV(*x),
            LeafValue::Scalar32(x) => LeafView::Scalar32V(*x),
            LeafValue::Scalar64(x) => LeafView::Scalar64V(*x),
            LeafValue::Boolean(x) => LeafView::BooleanV(*x),
            LeafValue::Text(s) => LeafView::TextV(s@),
            LeafValue::Vector3(a, b, c) => LeafView::Vector3V(*a, *b, *c),
            LeafValue::Rotation(a, b, c, d) => LeafView::RotationV(*a, *b, *c, *d),
            LeafValue::Color(a, b, c, d) => LeafView::ColorV(*a, *b, *c, *d),
            LeafValue::HandleRef(uid) => LeafView::HandleRefV(*uid),
        }
    }
}

impl LeafValue {
    pub fn duplicate(&self) -> (r: LeafValue)
        ensures
            r@ == self@,
    {
        match self {
            LeafValue::Unsigned(x) => LeafValue::Unsigned(*x),
            LeafValue::Signed(x) => LeafValue::Signed(*x),
            LeafValue::Scalar32(x) => LeafValue::Scalar32(*x),
            LeafValue::Scalar64(x) => LeafValue::Scalar64(*x),
            LeafValue::Boolean(x) => LeafValue::Boolean(*x),
            LeafValue::Text(s) => LeafValue::Text(s.clone()),
            LeafValue::Vector3(a, b, c) => LeafValue::Vector3(*a, *b, *c),
            LeafValue::Rotation(a, b, c, d) => LeafValue::Rotation(*a, *b, *c, *d),
            LeafValue::Color(a, b, c, d) => LeafValue::Color(*a, *b, *c, *d),
            LeafValue::HandleRef(uid) => LeafValue::HandleRef(*uid),
        }
    }
}

/// One pending widget mutation: the walk path of the leaf it targets, and
/// the value the widget reported.
#[derive(Debug)]
pub struct Edit {
    pub path: Vec<usize>,
    pub value: LeafValue,
}

/// The mathematical content of an edit.
pub ghost struct EditView {
    pub path: Seq<usize>,
    pub value: LeafView,
}

impl View for Edit {
    type V = EditView;

    open spec fn view(&self) -> EditView {
        EditView { path: self.path@, value: self.value@ }
    }
}

/// The edits a listing denotes.
pub open spec fn edits_view(edits: Seq<Edit>) -> Seq<EditView> {
    edits.map(|i: int, e: Edit| e@)
}

/// The first edit recorded for exactly `path`, from position `i` on.
pub open spec fn spec_edit_from(edits: Seq<EditView>, path: Seq<usize>, i: int) -> Option<LeafView>
    decreases edits.len() - i,
{
    if i < 0 || i >= edits.len() {
        None
    } else if edits[i].path == path {
        Some(edits[i].value)
    } else {
        spec_edit_from(edits, path, i + 1)
    }
}

/// The first edit recorded for exactly `path`.
pub open spec fn spec_edit_at(edits: Seq<EditView>, path: Seq<usize>) -> Option<LeafView> {
    spec_edit_from(edits, path, 0)
}

/// Whether two index paths are equal.
fn path_eq(a: &Vec<usize>, b: &Vec<usize>) -> (r: bool)
    ensures
        r == (a@ == b@),
{
    if a.len() != b.len() {
        proof {
            assert(a@.len() != b@.len());
        }
        return false;
    }
    let n = a.len();
    let mut i: usize = 0;
    while i < n
        invariant
            i <= n,
            n == a@.len(),
            n == b@.len(),
            forall|j: int| 0 <= j < i ==> a@[j] == b@[j],
        decreases n - i,
    {
        if a[i] != b[i] {
            return false;
        }
        i += 1;
    }
    proof {
        assert(a@ =~= b@);
    }
    true
}

fn edit_from(edits: &Vec<Edit>, path: &Vec<usize>, i: usize) -> (r: Option<LeafValue>)
    requires
        i <= edits@.len(),
    ensures
        match r {
            Some(v) => spec_edit_from(edits_view(edits@), path@, i as int) == Some(v@),
            None => spec_edit_from(edits_view(edits@), path@, i as int) is None,
        },
    decreases edits@.len() - i,
{
    if i >= edits.len() {
        None
    } else if path_eq(&edits[i].path, path) {
        Some(edits[i].value.duplicate())
    } else {
        edit_from(edits, path, i + 1)
    }
}

/// The first edit recorded for exactly `path`, as the widget handed it in.
pub fn edit_at(edits: &Vec<Edit>, path: &Vec<usize>) -> (r: Option<LeafValue>)
    ensures
        match r {
            Some(v) => spec_edit_at(edits_view(edits@), path@) == Some(v@),
            None => spec_edit_at(edits_view(edits@), path@) is None,
        },
{
    edit_from(edits, path, 0)
}

/// A copy of an index path.
pub fn clone_path(p: &Vec<usize>) -> (r: Vec<usize>)
    ensures
        r@ == p@,
{
    let mut out: Vec<usize> = Vec::new();
    let n = p.len();
    let mut i: usize = 0;
    while i < n
        invariant
            i <= n,
            n == p@.len(),
            out@ == p@.subrange(0, i as int),
        decreases n - i,
    {
        out.push(p[i]);
        proof {
            assert(p@.subrange(0, i as int).push(p@[i as int]) =~= p@.subrange(0, i as int + 1));
        }
        i += 1;
    }
    proof {
        assert(p@.subrange(0, p@.len() as int) =~= p@);
    }
    out
}

/// A dynamically-typed component value as the walker sees it: composites
/// carry their runtime type key and their parts; a leaf carries its type
/// key and editable payload; maps, enums and opaque values carry only their
/// type key and are rendered as placeholders.
#[derive(Debug, PartialEq)]
pub enum ReflectValue {
    StructValue(u64, Vec<(Option<String>, ReflectValue)>),
    TupleStructValue(u64, Vec<ReflectValue>),
    TupleValue(u64, Vec<ReflectValue>),
    ListValue(u64, Vec<ReflectValue>),
    ArrayValue(u64, Vec<ReflectValue>),
    MapValue(u64),
    EnumValue(u64),
    OpaqueValue(u64),
    Leaf(u64, LeafValue),
}

/// The mathematical content of a reflected value.
pub ghost enum ReflectView {
    StructV(u64, Seq<(Option<Seq<char>>, ReflectView)>),
    TupleStructV(u64, Seq<ReflectView>),
    TupleV(u64, Seq<ReflectView>),
    ListV(u64, Seq<ReflectView>),
    ArrayV(u64, Seq<ReflectView>),
    MapV(u64),
    EnumV(u64),
    OpaqueV(u64),
    LeafV(u64, LeafView),
}

/// The views of a field listing.
pub open spec fn fields_v(fs: Seq<(Option<String>, ReflectValue)>) -> Seq<
    (Option<Seq<char>>, ReflectView),
>
    decreases fs, 0int,
{
    if fs.len() == 0 {
        Seq::empty()
    } else {
        fields_v(fs.drop_last()).push(
            (
                match fs.last().0 {
                    Some(s) => Some(s@),
                    None => None,
                },
                fs.last().1.view(),
            ),
        )
    }
}

/// The views of an item listing.
pub open spec fn items_v(items: Seq<ReflectValue>) -> Seq<ReflectView>
    decreases items, 0int,
{
    if items.len() == 0 {
        Seq::empty()
    } else {
        items_v(items.drop_last()).push(items.last().view())
    }
}

impl View for ReflectValue {
    type V = ReflectView;

    open spec fn view(&self) -> ReflectView
        decreases self, 1int,
    {
        match self {
            ReflectValue::StructValue(k, fs) => ReflectView::StructV(*k, fields_v(fs@)),
            ReflectValue::TupleStructValue(k, items) => ReflectView::TupleStructV(
                *k,
                items_v(items@),
            ),
            ReflectValue::TupleValue(k, items) => ReflectView::TupleV(*k, items_v(items@)),
            ReflectValue::ListValue(k, items) => ReflectView::ListV(*k, items_v(items@)),
            ReflectValue::ArrayValue(k, items) => ReflectView::ArrayV(*k, items_v(items@)),
            ReflectValue::MapValue(k) => ReflectView::MapV(*k),
            ReflectValue::EnumValue(k) => ReflectView::EnumV(*k),
            ReflectValue::OpaqueValue(k) => ReflectView::OpaqueV(*k),
            ReflectValue::Leaf(k, v) => ReflectView::LeafV(*k, v@),
        }
    }
}

impl ReflectValue {
    /// The runtime type key the walker dispatches on.
    pub fn type_key(&self) -> (k: u64)
        ensures
            k == view_key(self@),
    {
        match self {
            ReflectValue::StructValue(k, _) => *k,
            ReflectValue::TupleStructValue(k, _) => *k,
            ReflectValue::TupleValue(k, _) => *k,
            ReflectValue::ListValue(k, _) => *k,
            ReflectValue::ArrayValue(k, _) => *k,
            ReflectValue::MapValue(k) => *k,
            ReflectValue::EnumValue(k) => *k,
            ReflectValue::OpaqueValue(k) => *k,
            ReflectValue::Leaf(k, _) => *k,
        }
    }
}

/// The runtime type key of a reflected value.
pub open spec fn view_key(v: ReflectView) -> u64 {
    match v {
        ReflectView::StructV(k, _) => k,
        ReflectView::TupleStructV(k, _) => k,
        ReflectView::TupleV(k, _) => k,
        ReflectView::ListV(k, _) => k,
        ReflectView::ArrayV(k, _) => k,
        ReflectView::MapV(k) => k,
        ReflectView::EnumV(k) => k,
        ReflectView::OpaqueV(k) => k,
        ReflectView::LeafV(k, _) => k,
    }
}

/// What the walker rendered, in order: collapsing headers, per-part labels,
/// placeholder markers for shapes it does not decompose, and a note for
/// each leaf editor it invoked.
#[derive(Debug, PartialEq)]
pub enum RenderOp {
    HeaderOp(String),
    NameLabelOp(String),
    MissingLabelOp,
    IndexLabelOp(usize),
    PlaceholderOp(u64),
    EditorOp(u64),
}

/// The mathematical content of a render step.
pub ghost enum RenderOpView {
    HeaderV(Seq<char>),
    NameLabelV(Seq<char>),
    MissingLabelV,
    IndexLabelV(usize),
    PlaceholderV(u64),
    EditorV(u64),
}

impl View for RenderOp {
    type V = RenderOpView;

    open spec fn view(&self) -> RenderOpView {
        match self {
            RenderOp::HeaderOp(s) => RenderOpView::HeaderV(s@),
            RenderOp::NameLabelOp(s) => RenderOpView::NameLabelV(s@),
            RenderOp::MissingLabelOp => RenderOpView::MissingLabelV,
            RenderOp::IndexLabelOp(i) => RenderOpView::IndexLabelV(*i),
            RenderOp::PlaceholderOp(k) => RenderOpView::PlaceholderV(*k),
            RenderOp::EditorOp(k) => RenderOpView::EditorV(*k),
        }
    }
}

/// The render log a listing denotes.
pub open spec fn log_view(log: Seq<RenderOp>) -> Seq<RenderOpView> {
    log.map(|i: int, op: RenderOp| op@)
}

/// Walk state threaded through one component's render: the pending
/// collapsible group label, set once per top-level component and cleared
/// when its header is rendered.
#[derive(Debug)]
pub struct WalkContext {
    pub collapsible: Option<String>,
}

/// The registration table of leaf editors, plus the skip set of types that
/// must never be shown or walked.
#[derive(Debug)]
pub struct InspectRegistry {
    pub impls: Vec<u64>,
    pub skipped: Vec<u64>,
}

impl InspectRegistry {
    pub open spec fn is_registered(self, k: u64) -> bool {
        self.impls@.contains(k)
    }

    pub open spec fn is_skipped(self, k: u64) -> bool {
        self.skipped@.contains(k)
    }

    /// An empty registry with the editor's standard skip set: parent and
    /// children links, handle-identifier internals, and the selection
    /// marker.
    pub fn with_default_skips() -> (r: InspectRegistry)
        ensures
            forall|k: u64| !r.is_registered(k),
            forall|k: u64|
                r.is_skipped(k) <==> (k == PARENT_LINK_KEY || k == CHILDREN_LINK_KEY || k
                    == HANDLE_ID_KEY || k == SELECTED_MARKER_KEY),
    {
        let mut skipped: Vec<u64> = Vec::new();
        skipped.push(PARENT_LINK_KEY);
        skipped.push(CHILDREN_LINK_KEY);
        skipped.push(HANDLE_ID_KEY);
        skipped.push(SELECTED_MARKER_KEY);
        let r = InspectRegistry { impls: Vec::new(), skipped };
        proof {
            assert forall|k: u64|
                r.is_skipped(k) <==> (k == PARENT_LINK_KEY || k == CHILDREN_LINK_KEY || k
                    == HANDLE_ID_KEY || k == SELECTED_MARKER_KEY) by {
                if k == PARENT_LINK_KEY {
                    assert(r.skipped@[0] == k);
                }
                if k == CHILDREN_LINK_KEY {
                    assert(r.skipped@[1] == k);
                }
                if k == HANDLE_ID_KEY {
                    assert(r.skipped@[2] == k);
                }
                if k == SELECTED_MARKER_KEY {
                    assert(r.skipped@[3] == k);
                }
                if r.skipped@.contains(k) {
                    let j = choose|j: int| 0 <= j < r.skipped@.len() && r.skipped@[j] == k;
                }
            }
        }
        r
    }

    /// Registers a leaf editor for the type key.
    pub fn register(&mut self, k: u64)
        ensures
            forall|x: u64|
                final(self).is_registered(x) <==> (old(self).is_registered(x) || x == k),
            forall|x: u64| final(self).is_skipped(x) == old(self).is_skipped(x),
    {
        crate::store::add_key(&mut self.impls, k);
    }
}

/// How one leaf edit lands: an absent edit keeps the value, an edit of the
/// same shape replaces it, and a mismatched shape is ignored. A handle leaf
/// is never replaced itself — its edit is routed through to the asset table.
pub open spec fn spec_apply_edit(cur: LeafView, e: Option<LeafView>) -> LeafView {
    match e {
        None => cur,
        Some(v) => if leaf_compatible(cur, v) {
            v
        } else {
            cur
        },
    }
}

/// Whether an edit payload has the shape the leaf expects.
pub open spec fn leaf_compatible(cur: LeafView, v: LeafView) -> bool {
    match (cur, v) {
        (LeafView::UnsignedV(_), LeafView::UnsignedV(_)) => true,
        (LeafView::SignedV(_), LeafView::SignedV(_)) => true,
        (LeafView::Scalar32V(_), LeafView::Scalar32V(_)) => true,
        (LeafView::Scalar64V(_), LeafView::Scalar64V(_)) => true,
        (LeafView::BooleanV(_), LeafView::BooleanV(_)) => true,
        (LeafView::TextV(_), LeafView::TextV(_)) => true,
        (LeafView::Vector3V(_, _, _), LeafView::Vector3V(_, _, _)) => true,
        (LeafView::RotationV(_, _, _, _), LeafView::RotationV(_, _, _, _)) => true,
        (LeafView::ColorV(_, _, _, _), LeafView::ColorV(_, _, _, _)) => true,
        _ => false,
    }
}

/// What one walk pass leaves behind: the (possibly edited) value, the
/// remaining pending group label, the asset table (which only the handle
/// editor's pierce touches), and the render steps it appended.
pub ghost struct WalkOut {
    pub value: ReflectView,
    pub collapsible: Option<Seq<char>>,
    pub assets: Map<(Seq<char>, u64), AssetValueView>,
    pub log: Seq<RenderOpView>,
}

/// The registered leaf editor's effect: a handle leaf pierces into the
/// asset table — a text edit at its path rewrites the material stored under
/// the handle's stable key — while every other leaf takes a same-shaped
/// edit at its path, or stays as it is.
pub open spec fn spec_leaf_edit(
    k: u64,
    payload: LeafView,
    edits: Seq<EditView>,
    path: Seq<usize>,
    assets: Map<(Seq<char>, u64), AssetValueView>,
) -> (ReflectView, Map<(Seq<char>, u64), AssetValueView>) {
    match payload {
        LeafView::HandleRefV(uid) => {
            let key = (MATERIAL_TYPE_UUID@, uid);
            let assets2 = match spec_edit_at(edits, path) {
                Some(LeafView::TextV(s)) => if assets.contains_key(key) && assets[key]
                    is MaterialView {
                    assets.insert(key, AssetValueView::MaterialView(s))
                } else {
                    assets
                },
                _ => assets,
            };
            (ReflectView::LeafV(k, payload), assets2)
        },
        _ => (
            ReflectView::LeafV(k, spec_apply_edit(payload, spec_edit_at(edits, path))),
            assets,
        ),
    }
}

/// One full walk pass over a value: a skipped type does nothing; a pending
/// group label renders one collapsing header (never nested) and the walk
/// continues inside it; otherwise the value is dispatched by type key and
/// shape.
pub open spec fn spec_walk(
    reg: InspectRegistry,
    value: ReflectView,
    collapsible: Option<Seq<char>>,
    edits: Seq<EditView>,
    path: Seq<usize>,
    assets: Map<(Seq<char>, u64), AssetValueView>,
) -> WalkOut
    decreases value, 1int, 0int,
{
    if reg.is_skipped(view_key(value)) {
        WalkOut { value, collapsible, assets, log: Seq::empty() }
    } else {
        match collapsible {
            Some(label) => {
                let inner = spec_walk_core(reg, value, edits, path, assets);
                WalkOut {
                    value: inner.value,
                    collapsible: None,
                    assets: inner.assets,
                    log: seq![RenderOpView::HeaderV(label)] + inner.log,
                }
            },
            None => spec_walk_core(reg, value, edits, path, assets),
        }
    }
}

/// The dispatch below the skip and group checks: a registered type runs its
/// leaf editor; an unregistered composite is decomposed part by part; maps,
/// enums and editor-less leaves render a placeholder and stay untouched.
pub open spec fn spec_walk_core(
    reg: InspectRegistry,
    value: ReflectView,
    edits: Seq<EditView>,
    path: Seq<usize>,
    assets: Map<(Seq<char>, u64), AssetValueView>,
) -> WalkOut
    decreases value, 0int, 0int,
{
    let k = view_key(value);
    if reg.is_registered(k) {
        match value {
            ReflectView::LeafV(k2, payload) => {
                let r = spec_leaf_edit(k2, payload, edits, path, assets);
                WalkOut {
                    value: r.0,
                    collapsible: None,
                    assets: r.1,
                    log: seq![RenderOpView::EditorV(k)],
                }
            },
            _ => WalkOut {
                value,
                collapsible: None,
                assets,
                log: seq![RenderOpView::EditorV(k)],
            },
        }
    } else {
        match value {
            ReflectView::StructV(k2, fields) => {
                let f = spec_walk_fields(reg, fields, fields.len() as int, edits, path, assets);
                WalkOut {
                    value: ReflectView::StructV(k2, f.0),
                    collapsible: None,
                    assets: f.1,
                    log: f.2,
                }
            },
            ReflectView::TupleStructV(k2, items) => {
                let f = spec_walk_items(reg, items, items.len() as int, edits, path, assets);
                WalkOut {
                    value: ReflectView::TupleStructV(k2, f.0),
                    collapsible: None,
                    assets: f.1,
                    log: f.2,
                }
            },
            ReflectView::TupleV(k2, items) => {
                let f = spec_walk_items(reg, items, items.len() as int, edits, path, assets);
                WalkOut {
                    value: ReflectView::TupleV(k2, f.0),
                    collapsible: None,
                    assets: f.1,
                    log: f.2,
                }
            },
            ReflectView::ListV(k2, items) => {
                let f = spec_walk_items(reg, items, items.len() as int, edits, path, assets);
                WalkOut {
                    value: ReflectView::ListV(k2, f.0),
                    collapsible: None,
                    assets: f.1,
                    log: f.2,
                }
            },
            ReflectView::ArrayV(k2, items) => {
                let f = spec_walk_items(reg, items, items.len() as int, edits, path, assets);
                WalkOut {
                    value: ReflectView::ArrayV(k2, f.0),
                    collapsible: None,
                    assets: f.1,
                    log: f.2,
                }
            },
            _ => WalkOut {
                value,
                collapsible: None,
                assets,
                log: seq![RenderOpView::PlaceholderV(k)],
            },
        }
    }
}

/// The two-column fold over the first `n` named fields: each renders its
/// name (or the missing-name marker) and is walked at its positional path.
pub open spec fn spec_walk_fields(
    reg: InspectRegistry,
    fields: Seq<(Option<Seq<char>>, ReflectView)>,
    n: int,
    edits: Seq<EditView>,
    path: Seq<usize>,
    assets: Map<(Seq<char>, u64), AssetValueView>,
) -> (Seq<(Option<Seq<char>>, ReflectView)>, Map<(Seq<char>, u64), AssetValueView>, Seq<
    RenderOpView,
>)
    decreases fields, 0int, n,
{
    if n <= 0 || n > fields.len() {
        (fields, assets, Seq::empty())
    } else {
        let pre = spec_walk_fields(reg, fields, n - 1, edits, path, assets);
        let name = fields[n - 1].0;
        let label = match name {
            Some(s) => RenderOpView::NameLabelV(s),
            None => RenderOpView::MissingLabelV,
        };
        let w = spec_walk(
            reg,
            fields[n - 1].1,
            None,
            edits,
            path.push((n - 1) as usize),
            pre.1,
        );
        (pre.0.update(n - 1, (name, w.value)), w.assets, pre.2 + seq![label] + w.log)
    }
}

/// The grid fold over the first `n` positional parts: each renders its
/// index and is walked at its positional path.
pub open spec fn spec_walk_items(
    reg: InspectRegistry,
    items: Seq<ReflectView>,
    n: int,
    edits: Seq<EditView>,
    path: Seq<usize>,
    assets: Map<(Seq<char>, u64), AssetValueView>,
) -> (Seq<ReflectView>, Map<(Seq<char>, u64), AssetValueView>, Seq<RenderOpView>)
    decreases items, 0int, n,
{
    if n <= 0 || n > items.len() {
        (items, assets, Seq::empty())
    } else {
        let pre = spec_walk_items(reg, items, n - 1, edits, path, assets);
        let w = spec_walk(reg, items[n - 1], None, edits, path.push((n - 1) as usize), pre.1);
        (
            pre.0.update(n - 1, w.value),
            w.assets,
            pre.2 + seq![RenderOpView::IndexLabelV((n - 1) as usize)] + w.log,
        )
    }
}

impl View for WalkContext {
    type V = Option<Seq<char>>;

    open spec fn view(&self) -> Option<Seq<char>> {
        match self.collapsible {
            Some(s) => Some(s@),
            None => None,
        }
    }
}

impl InspectRegistry {
    /// Whether a leaf editor is registered for the type key.
    pub fn contains_impl(&self, k: u64) -> (r: bool)
        ensures
            r == self.is_registered(k),
    {
        crate::store::has_key(&self.impls, k)
    }

    /// Whether the type key is in the skip set.
    pub fn contains_skip(&self, k: u64) -> (r: bool)
        ensures
            r == self.is_skipped(k),
    {
        crate::store::has_key(&self.skipped, k)
    }

    /// Walks one value for one frame: skipped types are left untouched, a
    /// pending group label renders one collapsing header around the value,
    /// registered types run their leaf editor (applying at most the one
    /// widget mutation recorded for their path), unregistered composites are
    /// decomposed part by part, and anything else renders a placeholder and
    /// survives unchanged. A field failure never aborts the walk: it is
    /// local to the one part.
    pub fn exec_reflect(
        &self,
        value: ReflectValue,
        ctx: &mut WalkContext,
        edits: &Vec<Edit>,
        path: &Vec<usize>,
        assets: &mut AssetTable,
        log: &mut Vec<RenderOp>,
    ) -> (r: ReflectValue)
        ensures
            ({
                let w = spec_walk(
                    *self,
                    value@,
                    old(ctx)@,
                    edits_view(edits@),
                    path@,
                    old(assets)@,
                );
                &&& r@ == w.value
                &&& final(ctx)@ == w.collapsible
                &&& final(assets)@ == w.assets
                &&& log_view(final(log)@) == log_view(old(log)@) + w.log
            }),
        decreases value, 1int, 0int,
    {
        let k = value.type_key();
        if self.contains_skip(k) {
            proof {
                assert(log_view(log@) =~= log_view(log@) + Seq::<RenderOpView>::empty());
            }
            return value;
        }
        let header = match &ctx.collapsible {
            Some(s) => Some(s.clone()),
            None => None,
        };
        match header {
            Some(label) => {
                ctx.collapsible = None;
                let ghost mid = log@;
                log.push(RenderOp::HeaderOp(label));
                proof {
                    assert(log_view(log@) =~= log_view(mid) + seq![
                        spec_walk(
                            *self,
                            value@,
                            old(ctx)@,
                            edits_view(edits@),
                            path@,
                            old(assets)@,
                        ).log[0],
                    ]);
                }
                let r = self.exec_core(value, edits, path, assets, log);
                proof {
                    let w = spec_walk(
                        *self,
                        value@,
                        old(ctx)@,
                        edits_view(edits@),
                        path@,
                        old(assets)@,
                    );
                    let inner = spec_walk_core(
                        *self,
                        value@,
                        edits_view(edits@),
                        path@,
                        old(assets)@,
                    );
                    assert(w.log =~= seq![w.log[0]] + inner.log);
                    assert(log_view(log@) =~= log_view(mid) + w.log);
                }
                r
            },
            None => self.exec_core(value, edits, path, assets, log),
        }
    }

    /// The dispatch below the skip and group checks.
    fn exec_core(
        &self,
        value: ReflectValue,
        edits: &Vec<Edit>,
        path: &Vec<usize>,
        assets: &mut AssetTable,
        log: &mut Vec<RenderOp>,
    ) -> (r: ReflectValue)
        ensures
            ({
                let w = spec_walk_core(*self, value@, edits_view(edits@), path@, old(assets)@);
                &&& r@ == w.value
                &&& final(assets)@ == w.assets
                &&& log_view(final(log)@) == log_view(old(log)@) + w.log
            }),
        decreases value, 0int, 0int,
    {
        let ghost v0 = value;
        let k = value.type_key();
        if self.contains_impl(k) {
            match value {
                ReflectValue::Leaf(k2, payload) => {
                    let ghost mid = log@;
                    log.push(RenderOp::EditorOp(k2));
                    proof {
                        assert(log_view(log@) =~= log_view(mid) + seq![RenderOpView::EditorV(k2)]);
                    }
                    match payload {
                        LeafValue::HandleRef(uid) => {
                            match edit_at(edits, path) {
                                Some(LeafValue::Text(s)) => {
                                    let h = crate::assets::HandleId {
                                        type_uuid: String::from_str(MATERIAL_TYPE_UUID),
                                        uid,
                                    };
                                    let present = match assets.get(&h) {
                                        Some(crate::assets::AssetValue::MaterialAsset(_)) => true,
                                        _ => false,
                                    };
                                    if present {
                                        let h2 = crate::assets::HandleId {
                                            type_uuid: String::from_str(MATERIAL_TYPE_UUID),
                                            uid,
                                        };
                                        assets.set(
                                            h2,
                                            crate::assets::AssetValue::MaterialAsset(s),
                                        );
                                    }
                                },
                                _ => {},
                            }
                            ReflectValue::Leaf(k2, LeafValue::HandleRef(uid))
                        },
                        other => {
                            let e = edit_at(edits, path);
                            let edited = apply_edit(other, e);
                            ReflectValue::Leaf(k2, edited)
                        },
                    }
                },
                other => {
                    let ghost mid = log@;
                    log.push(RenderOp::EditorOp(k));
                    proof {
                        assert(log_view(log@) =~= log_view(mid) + seq![RenderOpView::EditorV(k)]);
                    }
                    other
                },
            }
        } else {
            match value {
                ReflectValue::StructValue(k2, fields) => {
                    let n = fields.len();
                    proof {
                        lemma_fields_v_len(fields@);
                    }
                    let out = self.exec_fields(fields, n, edits, path, assets, log);
                    ReflectValue::StructValue(k2, out)
                },
                ReflectValue::TupleStructValue(k2, items) => {
                    let n = items.len();
                    proof {
                        lemma_items_v_len(items@);
                    }
                    let out = self.exec_items(items, n, edits, path, assets, log);
                    ReflectValue::TupleStructValue(k2, out)
                },
                ReflectValue::TupleValue(k2, items) => {
                    let n = items.len();
                    proof {
                        lemma_items_v_len(items@);
                    }
                    let out = self.exec_items(items, n, edits, path, assets, log);
                    ReflectValue::TupleValue(k2, out)
                },
                ReflectValue::ListValue(k2, items) => {
                    let n = items.len();
                    proof {
                        lemma_items_v_len(items@);
                    }
                    let out = self.exec_items(items, n, edits, path, assets, log);
                    ReflectValue::ListValue(k2, out)
                },
                ReflectValue::ArrayValue(k2, items) => {
                    let n = items.len();
                    proof {
                        lemma_items_v_len(items@);
                    }
                    let out = self.exec_items(items, n, edits, path, assets, log);
                    ReflectValue::ArrayValue(k2, out)
                },
                other => {
                    let ghost mid = log@;
                    log.push(RenderOp::PlaceholderOp(k));
                    proof {
                        assert(log_view(log@) =~= log_view(mid) + seq![
                            RenderOpView::PlaceholderV(k),
                        ]);
                    }
                    other
                },
            }
        }
    }

    /// Walks the first `n` named fields in place.
    fn exec_fields(
        &self,
        fields: Vec<(Option<String>, ReflectValue)>,
        n: usize,
        edits: &Vec<Edit>,
        path: &Vec<usize>,
        assets: &mut AssetTable,
        log: &mut Vec<RenderOp>,
    ) -> (r: Vec<(Option<String>, ReflectValue)>)
        requires
            n <= fields@.len(),
        ensures
            ({
                let f = spec_walk_fields(
                    *self,
                    fields_v(fields@),
                    n as int,
                    edits_view(edits@),
                    path@,
                    old(assets)@,
                );
                &&& fields_v(r@) == f.0
                &&& final(assets)@ == f.1
                &&& log_view(final(log)@) == log_view(old(log)@) + f.2
            }),
            r@.len() == fields@.len(),
            forall|j: int| n <= j < fields@.len() ==> r@[j] == fields@[j],
        decreases fields, 0int, n,
    {
        let ghost f0 = fields;
        if n == 0 {
            proof {
                assert(log_view(log@) =~= log_view(log@) + Seq::<RenderOpView>::empty());
                lemma_fields_v_len(fields@);
            }
            return fields;
        }
        let mut fs = self.exec_fields(fields, n - 1, edits, path, assets, log);
        let ghost ev = edits_view(edits@);
        let ghost fpre = spec_walk_fields(*self, fields_v(f0@), n - 1 as int, ev, path@, old(assets)@);
        let ghost fs_pre = fs@;
        let ghost l1 = log@;
        proof {
            lemma_fields_v_len(f0@);
            lemma_fields_v_len(fs@);
            lemma_fields_v_index(f0@, n - 1 as int);
            lemma_fields_v_index(fs@, n - 1 as int);
            assert(fs_pre[n - 1 as int] == f0@[n - 1 as int]);
        }
        let ghost labelv = (match fields_v(f0@)[n - 1 as int].0 {
            Some(sv) => RenderOpView::NameLabelV(sv),
            None => RenderOpView::MissingLabelV,
        });
        match &fs[n - 1].0 {
            Some(nm) => {
                log.push(RenderOp::NameLabelOp(nm.clone()));
            },
            None => {
                log.push(RenderOp::MissingLabelOp);
            },
        }
        proof {
            assert(log_view(log@) =~= log_view(l1) + seq![labelv]);
        }
        let mut child = ReflectValue::MapValue(0);
        let fslot = &mut fs[n - 1].1;
        core::mem::swap(&mut child, fslot);
        proof {
            assert(child == f0@[n - 1 as int].1);
            assert(child@ == fields_v(f0@)[n - 1 as int].1);
        }
        let ghost l2 = log@;
        let ghost a2 = assets@;
        let mut cpath = clone_path(path);
        cpath.push(n - 1);
        proof {
            assert(cpath@ =~= path@.push((n - 1) as usize));
        }
        let mut cctx = WalkContext { collapsible: None };
        let child2 = self.exec_reflect(child, &mut cctx, edits, &cpath, assets, log);
        let ghost w = spec_walk(*self, fields_v(f0@)[n - 1 as int].1, None, ev, path@.push((n - 1) as usize), fpre.1);
        fs[n - 1].1 = child2;
        proof {
            let f = spec_walk_fields(*self, fields_v(f0@), n as int, ev, path@, old(assets)@);
            assert(a2 == fpre.1);
            assert(child2@ == w.value);
            assert(fs@ =~= fs_pre.update(n - 1 as int, (fs_pre[n - 1 as int].0, child2)));
            lemma_fields_v_update(fs_pre, n - 1 as int, (fs_pre[n - 1 as int].0, child2));
            assert(fields_v(fs_pre) == fpre.0);
            assert(fields_v(fs@) =~= fpre.0.update(n - 1 as int, (fields_v(f0@)[n - 1 as int].0, w.value)));
            assert(fields_v(fs@) =~= f.0);
            assert(f.2 =~= fpre.2 + seq![labelv] + w.log);
            assert(log_view(log@) =~= log_view(l2) + w.log);
            assert(log_view(l2) =~= log_view(old(log)@) + fpre.2 + seq![labelv]);
            assert(log_view(log@) =~= log_view(old(log)@) + f.2);
        }
        fs
    }

    /// Walks the first `n` positional parts in place.
    fn exec_items(
        &self,
        items: Vec<ReflectValue>,
        n: usize,
        edits: &Vec<Edit>,
        path: &Vec<usize>,
        assets: &mut AssetTable,
        log: &mut Vec<RenderOp>,
    ) -> (r: Vec<ReflectValue>)
        requires
            n <= items@.len(),
        ensures
            ({
                let f = spec_walk_items(
                    *self,
                    items_v(items@),
                    n as int,
                    edits_view(edits@),
                    path@,
                    old(assets)@,
                );
                &&& items_v(r@) == f.0
                &&& final(assets)@ == f.1
                &&& log_view(final(log)@) == log_view(old(log)@) + f.2
            }),
            r@.len() == items@.len(),
            forall|j: int| n <= j < items@.len() ==> r@[j] == items@[j],
        decreases items, 0int, n,
    {
        let ghost i0 = items;
        if n == 0 {
            proof {
                assert(log_view(log@) =~= log_view(log@) + Seq::<RenderOpView>::empty());
                lemma_items_v_len(items@);
            }
            return items;
        }
        let mut is2 = self.exec_items(items, n - 1, edits, path, assets, log);
        let ghost ev = edits_view(edits@);
        let ghost fpre = spec_walk_items(*self, items_v(i0@), n - 1 as int, ev, path@, old(assets)@);
        let ghost is_pre = is2@;
        let ghost l1 = log@;
        proof {
            lemma_items_v_len(i0@);
            lemma_items_v_len(is2@);
            lemma_items_v_index(i0@, n - 1 as int);
            lemma_items_v_index(is2@, n - 1 as int);
            assert(is_pre[n - 1 as int] == i0@[n - 1 as int]);
        }
        log.push(RenderOp::IndexLabelOp(n - 1));
        proof {
            assert(log_view(log@) =~= log_view(l1) + seq![
                RenderOpView::IndexLabelV((n - 1) as usize),
            ]);
        }
        let mut child = ReflectValue::MapValue(0);
        let islot = &mut is2[n - 1];
        core::mem::swap(&mut child, islot);
        proof {
            assert(child == i0@[n - 1 as int]);
            assert(child@ == items_v(i0@)[n - 1 as int]);
        }
        let ghost l2 = log@;
        let ghost a2 = assets@;
        let mut cpath = clone_path(path);
        cpath.push(n - 1);
        proof {
            assert(cpath@ =~= path@.push((n - 1) as usize));
        }
        let mut cctx = WalkContext { collapsible: None };
        let child2 = self.exec_reflect(child, &mut cctx, edits, &cpath, assets, log);
        let ghost w = spec_walk(*self, items_v(i0@)[n - 1 as int], None, ev, path@.push((n - 1) as usize), fpre.1);
        is2[n - 1] = child2;
        proof {
            let f = spec_walk_items(*self, items_v(i0@), n as int, ev, path@, old(assets)@);
            assert(a2 == fpre.1);
            assert(child2@ == w.value);
            assert(is2@ =~= is_pre.update(n - 1 as int, child2));
            lemma_items_v_update(is_pre, n - 1 as int, child2);
            assert(items_v(is_pre) == fpre.0);
            assert(items_v(is2@) =~= fpre.0.update(n - 1 as int, w.value));
            assert(items_v(is2@) =~= f.0);
            assert(f.2 =~= fpre.2 + seq![RenderOpView::IndexLabelV((n - 1) as usize)] + w.log);
            assert(log_view(log@) =~= log_view(l2) + w.log);
            assert(log_view(l2) =~= log_view(old(log)@) + fpre.2 + seq![
                RenderOpView::IndexLabelV((n - 1) as usize),
            ]);
            assert(log_view(log@) =~= log_view(old(log)@) + f.2);
        }
        is2
    }
}

/// Applies one recorded widget mutation to a leaf payload.
fn apply_edit(cur: LeafValue, e: Option<LeafValue>) -> (r: LeafValue)
    ensures
        r@ == spec_apply_edit(
            cur@,
            match e {
                Some(v) => Some(v@),
                None => None,
            },
        ),
{
    match e {
        None => cur,
        Some(v) => {
            let compatible = match (&cur, &v) {
                (LeafValue::Unsigned(_), LeafValue::Unsigned(_)) => true,
                (LeafValue::Signed(_), LeafValue::Signed(_)) => true,
                (LeafValue::Scalar32(_), LeafValue::Scalar32(_)) => true,
                (LeafValue::Scalar64(_), LeafValue::Scalar64(_)) => true,
                (LeafValue::Boolean(_), LeafValue::Boolean(_)) => true,
                (LeafValue::Text(_), LeafValue::Text(_)) => true,
                (LeafValue::Vector3(_, _, _), LeafValue::Vector3(_, _, _)) => true,
                (LeafValue::Rotation(_, _, _, _), LeafValue::Rotation(_, _, _, _)) => true,
                (LeafValue::Color(_, _, _, _), LeafValue::Color(_, _, _, _)) => true,
                _ => false,
            };
            if compatible {
                v
            } else {
                cur
            }
        },
    }
}

/// The length of a field listing's view.
pub proof fn lemma_fields_v_len(fs: Seq<(Option<String>, ReflectValue)>)
    ensures
        fields_v(fs).len() == fs.len(),
    decreases fs.len(),
{
    if fs.len() > 0 {
        lemma_fields_v_len(fs.drop_last());
        assert(fields_v(fs) == fields_v(fs.drop_last()).push(
            (
                match fs.last().0 {
                    Some(s) => Some(s@),
                    None => None,
                },
                fs.last().1.view(),
            ),
        ));
    } else {
        assert(fields_v(fs) == Seq::<(Option<Seq<char>>, ReflectView)>::empty());
    }
}

/// Each position of a field listing's view is the view of that position.
pub proof fn lemma_fields_v_index(fs: Seq<(Option<String>, ReflectValue)>, j: int)
    requires
        0 <= j < fs.len(),
    ensures
        fields_v(fs).len() == fs.len(),
        fields_v(fs)[j] == (
            match fs[j].0 {
                Some(s) => Some(s@),
                None => None,
            },
            fs[j].1@,
        ),
    decreases fs.len(),
{
    lemma_fields_v_len(fs);
    lemma_fields_v_len(fs.drop_last());
    assert(fields_v(fs) == fields_v(fs.drop_last()).push(
        (
            match fs.last().0 {
                Some(s) => Some(s@),
                None => None,
            },
            fs.last().1.view(),
        ),
    ));
    if j < fs.len() - 1 {
        lemma_fields_v_index(fs.drop_last(), j);
        assert(fs.drop_last()[j] == fs[j]);
    } else {
        assert(fs.last() == fs[j]);
    }
}

/// The length of an item listing's view.
pub proof fn lemma_items_v_len(items: Seq<ReflectValue>)
    ensures
        items_v(items).len() == items.len(),
    decreases items.len(),
{
    if items.len() > 0 {
        lemma_items_v_len(items.drop_last());
        assert(items_v(items) == items_v(items.drop_last()).push(items.last().view()));
    } else {
        assert(items_v(items) == Seq::<ReflectView>::empty());
    }
}

/// Each position of an item listing's view is the view of that position.
pub proof fn lemma_items_v_index(items: Seq<ReflectValue>, j: int)
    requires
        0 <= j < items.len(),
    ensures
        items_v(items).len() == items.len(),
        items_v(items)[j] == items[j]@,
    decreases items.len(),
{
    lemma_items_v_len(items);
    lemma_items_v_len(items.drop_last());
    assert(items_v(items) == items_v(items.drop_last()).push(items.last().view()));
    if j < items.len() - 1 {
        lemma_items_v_index(items.drop_last(), j);
        assert(items.drop_last()[j] == items[j]);
    } else {
        assert(items.last() == items[j]);
    }
}

/// Updating one field updates exactly that position of the view.
pub proof fn lemma_fields_v_update(
    fs: Seq<(Option<String>, ReflectValue)>,
    j: int,
    x: (Option<String>, ReflectValue),
)
    requires
        0 <= j < fs.len(),
    ensures
        fields_v(fs.update(j, x)) == fields_v(fs).update(
            j,
            (
                match x.0 {
                    Some(s) => Some(s@),
                    None => None,
                },
                x.1@,
            ),
        ),
    decreases fs.len(),
{
    lemma_fields_v_len(fs);
    lemma_fields_v_len(fs.update(j, x));
    let t = fs.update(j, x);
    let xv = (
        match x.0 {
            Some(s) => Some(s@),
            None => None,
        },
        x.1@,
    );
    if j == fs.len() - 1 {
        assert(t.drop_last() =~= fs.drop_last());
        assert(t.last() == x);
        assert(fields_v(t) == fields_v(t.drop_last()).push(
            (
                match t.last().0 {
                    Some(s) => Some(s@),
                    None => None,
                },
                t.last().1.view(),
            ),
        ));
        assert(fields_v(fs) == fields_v(fs.drop_last()).push(
            (
                match fs.last().0 {
                    Some(s) => Some(s@),
                    None => None,
                },
                fs.last().1.view(),
            ),
        ));
        assert(fields_v(t) =~= fields_v(fs).update(j, xv));
    } else {
        assert(t.drop_last() =~= fs.drop_last().update(j, x));
        lemma_fields_v_update(fs.drop_last(), j, x);
        assert(t.last() == fs.last());
        assert(fields_v(t) == fields_v(t.drop_last()).push(
            (
                match t.last().0 {
                    Some(s) => Some(s@),
                    None => None,
                },
                t.last().1.view(),
            ),
        ));
        assert(fields_v(fs) == fields_v(fs.drop_last()).push(
            (
                match fs.last().0 {
                    Some(s) => Some(s@),
                    None => None,
                },
                fs.last().1.view(),
            ),
        ));
        assert(fields_v(t) =~= fields_v(fs).update(j, xv));
    }
}

/// Updating one part updates exactly that position of the view.
pub proof fn lemma_items_v_update(items: Seq<ReflectValue>, j: int, x: ReflectValue)
    requires
        0 <= j < items.len(),
    ensures
        items_v(items.update(j, x)) == items_v(items).update(j, x@),
    decreases items.len(),
{
    lemma_items_v_len(items);
    lemma_items_v_len(items.update(j, x));
    let t = items.update(j, x);
    if j == items.len() - 1 {
        assert(t.drop_last() =~= items.drop_last());
        assert(t.last() == x);
        assert(items_v(t) == items_v(t.drop_last()).push(t.last().view()));
        assert(items_v(items) == items_v(items.drop_last()).push(items.last().view()));
        assert(items_v(t) =~= items_v(items).update(j, x@));
    } else {
        assert(t.drop_last() =~= items.drop_last().update(j, x));
        lemma_items_v_update(items.drop_last(), j, x);
        assert(t.last() == items.last());
        assert(items_v(t) == items_v(t.drop_last()).push(t.last().view()));
        assert(items_v(items) == items_v(items.drop_last()).push(items.last().view()));
        assert(items_v(t) =~= items_v(items).update(j, x@));
    }
}

/// Whether every recorded edit that reaches this value is a no-op: at each
/// leaf, the edit for its path (if any) either mismatches the leaf's shape
/// or repeats the value already there; at a handle leaf, a text edit
/// repeats the material text already stored under the handle's key.
pub open spec fn walk_edits_noop(
    edits: Seq<EditView>,
    value: ReflectView,
    path: Seq<usize>,
    assets: Map<(Seq<char>, u64), AssetValueView>,
) -> bool
    decreases value,
{
    match value {
        ReflectView::StructV(k, fields) => forall|j: int|
            0 <= j < fields.len() ==> walk_edits_noop(
                edits,
                (#[trigger] fields[j]).1,
                path.push(j as usize),
                assets,
            ),
        ReflectView::TupleStructV(k, items) => forall|j: int|
            0 <= j < items.len() ==> walk_edits_noop(
                edits,
                #[trigger] items[j],
                path.push(j as usize),
                assets,
            ),
        ReflectView::TupleV(k, items) => forall|j: int|
            0 <= j < items.len() ==> walk_edits_noop(
                edits,
                #[trigger] items[j],
                path.push(j as usize),
                assets,
            ),
        ReflectView::ListV(k, items) => forall|j: int|
            0 <= j < items.len() ==> walk_edits_noop(
                edits,
                #[trigger] items[j],
                path.push(j as usize),
                assets,
            ),
        ReflectView::ArrayV(k, items) => forall|j: int|
            0 <= j < items.len() ==> walk_edits_noop(
                edits,
                #[trigger] items[j],
                path.push(j as usize),
                assets,
            ),
        ReflectView::LeafV(k, payload) => match payload {
            LeafView::HandleRefV(uid) => match spec_edit_at(edits, path) {
                Some(LeafView::TextV(s)) => {
                    let key = (MATERIAL_TYPE_UUID@, uid);
                    (assets.contains_key(key) && assets[key] is MaterialView) ==> assets[key]
                        == AssetValueView::MaterialView(s)
                },
                _ => true,
            },
            _ => match spec_edit_at(edits, path) {
                Some(v) => leaf_compatible(payload, v) ==> v == payload,
                None => true,
            },
        },
        _ => true,
    }
}

/// Reflection walk idempotence on no-op edits: a walk whose recorded edits
/// are all no-ops — in particular, a walk with no edits at all — leaves the
/// value and the asset table exactly as they were.
pub proof fn lemma_walk_noop(
    reg: InspectRegistry,
    value: ReflectView,
    collapsible: Option<Seq<char>>,
    edits: Seq<EditView>,
    path: Seq<usize>,
    assets: Map<(Seq<char>, u64), AssetValueView>,
)
    requires
        walk_edits_noop(edits, value, path, assets),
    ensures
        spec_walk(reg, value, collapsible, edits, path, assets).value == value,
        spec_walk(reg, value, collapsible, edits, path, assets).assets == assets,
    decreases value, 1int, 0int,
{
    if !reg.is_skipped(view_key(value)) {
        lemma_core_noop(reg, value, edits, path, assets);
    }
}

proof fn lemma_core_noop(
    reg: InspectRegistry,
    value: ReflectView,
    edits: Seq<EditView>,
    path: Seq<usize>,
    assets: Map<(Seq<char>, u64), AssetValueView>,
)
    requires
        walk_edits_noop(edits, value, path, assets),
    ensures
        spec_walk_core(reg, value, edits, path, assets).value == value,
        spec_walk_core(reg, value, edits, path, assets).assets == assets,
    decreases value, 0int, 0int,
{
    let k = view_key(value);
    if reg.is_registered(k) {
        match value {
            ReflectView::LeafV(k2, payload) => {
                match payload {
                    LeafView::HandleRefV(uid) => {
                        let key = (MATERIAL_TYPE_UUID@, uid);
                        match spec_edit_at(edits, path) {
                            Some(LeafView::TextV(s)) => {
                                if assets.contains_key(key) && assets[key] is MaterialView {
                                    assert(assets[key] == AssetValueView::MaterialView(s));
                                    assert(assets.insert(key, AssetValueView::MaterialView(s))
                                        =~= assets);
                                }
                            },
                            _ => {},
                        }
                    },
                    _ => {},
                }
            },
            _ => {},
        }
    } else {
        match value {
            ReflectView::StructV(k2, fields) => {
                lemma_fields_noop(reg, fields, fields.len() as int, edits, path, assets);
                assert(spec_walk_fields(reg, fields, fields.len() as int, edits, path, assets).0
                    =~= fields);
            },
            ReflectView::TupleStructV(k2, items) => {
                lemma_items_noop(reg, items, items.len() as int, edits, path, assets);
                assert(spec_walk_items(reg, items, items.len() as int, edits, path, assets).0
                    =~= items);
            },
            ReflectView::TupleV(k2, items) => {
                lemma_items_noop(reg, items, items.len() as int, edits, path, assets);
                assert(spec_walk_items(reg, items, items.len() as int, edits, path, assets).0
                    =~= items);
            },
            ReflectView::ListV(k2, items) => {
                lemma_items_noop(reg, items, items.len() as int, edits, path, assets);
                assert(spec_walk_items(reg, items, items.len() as int, edits, path, assets).0
                    =~= items);
            },
            ReflectView::ArrayV(k2, items) => {
                lemma_items_noop(reg, items, items.len() as int, edits, path, assets);
                assert(spec_walk_items(reg, items, items.len() as int, edits, path, assets).0
                    =~= items);
            },
            _ => {},
        }
    }
}

proof fn lemma_fields_noop(
    reg: InspectRegistry,
    fields: Seq<(Option<Seq<char>>, ReflectView)>,
    n: int,
    edits: Seq<EditView>,
    path: Seq<usize>,
    assets: Map<(Seq<char>, u64), AssetValueView>,
)
    requires
        n <= fields.len(),
        forall|j: int|
            0 <= j < fields.len() ==> walk_edits_noop(
                edits,
                (#[trigger] fields[j]).1,
                path.push(j as usize),
                assets,
            ),
    ensures
        spec_walk_fields(reg, fields, n, edits, path, assets).0 == fields,
        spec_walk_fields(reg, fields, n, edits, path, assets).1 == assets,
    decreases fields, 0int, n,
{
    if n <= 0 {
    } else {
        lemma_fields_noop(reg, fields, n - 1, edits, path, assets);
        lemma_walk_noop(reg, fields[n - 1].1, None, edits, path.push((n - 1) as usize), assets);
        let pre = spec_walk_fields(reg, fields, n - 1, edits, path, assets);
        let w = spec_walk(reg, fields[n - 1].1, None, edits, path.push((n - 1) as usize), pre.1);
        assert(pre.0.update(n - 1, (fields[n - 1].0, w.value)) =~= fields);
    }
}

proof fn lemma_items_noop(
    reg: InspectRegistry,
    items: Seq<ReflectView>,
    n: int,
    edits: Seq<EditView>,
    path: Seq<usize>,
    assets: Map<(Seq<char>, u64), AssetValueView>,
)
    requires
        n <= items.len(),
        forall|j: int|
            0 <= j < items.len() ==> walk_edits_noop(
                edits,
                #[trigger] items[j],
                path.push(j as usize),
                assets,
            ),
    ensures
        spec_walk_items(reg, items, n, edits, path, assets).0 == items,
        spec_walk_items(reg, items, n, edits, path, assets).1 == assets,
    decreases items, 0int, n,
{
    if n <= 0 {
    } else {
        lemma_items_noop(reg, items, n - 1, edits, path, assets);
        lemma_walk_noop(reg, items[n - 1], None, edits, path.push((n - 1) as usize), assets);
        let pre = spec_walk_items(reg, items, n - 1, edits, path, assets);
        let w = spec_walk(reg, items[n - 1], None, edits, path.push((n - 1) as usize), pre.1);
        assert(pre.0.update(n - 1, w.value) =~= items);
    }
}

/// With no recorded edits at all, every edit lookup is empty, so the walk
/// is a no-op on any value and table.
pub proof fn lemma_empty_edits_noop(
    value: ReflectView,
    path: Seq<usize>,
    assets: Map<(Seq<char>, u64), AssetValueView>,
)
    ensures
        walk_edits_noop(Seq::empty(), value, path, assets),
    decreases value,
{
    match value {
        ReflectView::StructV(k, fields) => {
            assert forall|j: int| 0 <= j < fields.len() implies walk_edits_noop(
                Seq::empty(),
                (#[trigger] fields[j]).1,
                path.push(j as usize),
                assets,
            ) by {
                lemma_empty_edits_noop(fields[j].1, path.push(j as usize), assets);
            }
        },
        ReflectView::TupleStructV(k, items) => {
            assert forall|j: int| 0 <= j < items.len() implies walk_edits_noop(
                Seq::empty(),
                #[trigger] items[j],
                path.push(j as usize),
                assets,
            ) by {
                lemma_empty_edits_noop(items[j], path.push(j as usize), assets);
            }
        },
        ReflectView::TupleV(k, items) => {
            assert forall|j: int| 0 <= j < items.len() implies walk_edits_noop(
                Seq::empty(),
                #[trigger] items[j],
                path.push(j as usize),
                assets,
            ) by {
                lemma_empty_edits_noop(items[j], path.push(j as usize), assets);
            }
        },
        ReflectView::ListV(k, items) => {
            assert forall|j: int| 0 <= j < items.len() implies walk_edits_noop(
                Seq::empty(),
                #[trigger] items[j],
                path.push(j as usize),
                assets,
            ) by {
                lemma_empty_edits_noop(items[j], path.push(j as usize), assets);
            }
        },
        ReflectView::ArrayV(k, items) => {
            assert forall|j: int| 0 <= j < items.len() implies walk_edits_noop(
                Seq::empty(),
                #[trigger] items[j],
                path.push(j as usize),
                assets,
            ) by {
                lemma_empty_edits_noop(items[j], path.push(j as usize), assets);
            }
        },
        ReflectView::LeafV(k, payload) => {
            assert(spec_edit_at(Seq::empty(), path) is None);
        },
        _ => {},
    }
}

} // verus!
