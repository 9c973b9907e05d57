//! The parts of a Rust source file that the code generator reads, as plain
//! values, and the parser that produces them.
//!
//! Type and path tokens are kept as the text that their token streams print.
use vstd::prelude::*;
use syn::export::ToTokens;

verus! {

#[verifier::external_type_specification]
#[verifier::external_body]
pub struct ExSynError(syn::Error);

#[verifier::external_type_specification]
#[verifier::external_body]
pub struct ExSynItem(syn::Item);

#[verifier::external_type_specification]
#[verifier::external_body]
pub struct ExSynImplItem(syn::ImplItem);

#[verifier::external_type_specification]
#[verifier::external_body]
pub struct ExSynTraitItem(syn::TraitItem);

#[verifier::external_type_specification]
#[verifier::external_body]
pub struct ExSynMethodSig(syn::MethodSig);

#[verifier::external_type_specification]
#[verifier::external_body]
pub struct ExSynFnArg(syn::FnArg);

#[verifier::external_type_specification]
#[verifier::external_body]
pub struct ExSynPat(syn::Pat);

#[verifier::external_type_specification]
#[verifier::external_body]
pub struct ExSynType(syn::Type);

#[verifier::external_type_specification]
#[verifier::external_body]
pub struct ExSynPath(syn::Path);

#[verifier::external_type_specification]
#[verifier::external_body]
pub struct ExSynGenerics(syn::Generics);

// ---------------------------------------------------------------------------
// Paths
// ---------------------------------------------------------------------------

/// One segment of a path: its identifier and the tokens of its generic
/// arguments (empty when it has none).
#[derive(Debug)]
pub struct PathSegmentSyntax {
    pub ident: String,
    pub arguments: String,
}

pub struct SegmentView {
    pub ident: Seq<char>,
    pub arguments: Seq<char>,
}

impl View for PathSegmentSyntax {
    type V = SegmentView;

    open spec fn view(&self) -> SegmentView {
        SegmentView { ident: self.ident@, arguments: self.arguments@ }
    }
}

impl Clone for PathSegmentSyntax {
    fn clone(&self) -> (r: Self)
        ensures
            r@ == self@,
    {
        PathSegmentSyntax { ident: self.ident.clone(), arguments: self.arguments.clone() }
    }
}

/// A path such as `a::b::C<T>`.
#[derive(Debug)]
pub struct PathSyntax {
    pub leading_colon: bool,
    pub segments: Vec<PathSegmentSyntax>,
}

pub struct PathView {
    pub leading_colon: bool,
    pub segments: Seq<SegmentView>,
}

/// The views of path segments.
pub open spec fn segment_views(s: Seq<PathSegmentSyntax>) -> Seq<SegmentView> {
    s.map_values(|x: PathSegmentSyntax| x@)
}

impl View for PathSyntax {
    type V = PathView;

    open spec fn view(&self) -> PathView {
        PathView { leading_colon: self.leading_colon, segments: segment_views(self.segments@) }
    }
}

impl Clone for PathSyntax {
    fn clone(&self) -> (r: Self)
        ensures
            r@ == self@,
    {
        let segments = self.segments.clone();
        assert(segment_views(segments@) =~= segment_views(self.segments@));
        PathSyntax { leading_colon: self.leading_colon, segments }
    }
}

/// The view of an optional path.
pub open spec fn opt_path_view(o: Option<PathSyntax>) -> Option<PathView> {
    match o {
        Some(p) => Some(p@),
        None => None,
    }
}

impl PathView {
    /// The identifier of the last segment.
    pub open spec fn last_ident(self) -> Seq<char> {
        self.segments.last().ident
    }
}

/// Whether two paths are the same path.
pub fn paths_equal(a: &PathSyntax, b: &PathSyntax) -> (r: bool)
    ensures
        r == (a@ == b@),
{
    if a.leading_colon != b.leading_colon || a.segments.len() != b.segments.len() {
        proof {
            if a@ == b@ {
                assert(a@.segments.len() == b@.segments.len());
            }
        }
        return false;
    }
    let mut i: usize = 0;
    while i < a.segments.len()
        invariant
            a.segments@.len() == b.segments@.len(),
            i <= a.segments@.len(),
            forall|k: int| 0 <= k < i ==> #[trigger] a@.segments[k] == b@.segments[k],
        decreases a.segments@.len() - i,
    {
        if a.segments[i].ident != b.segments[i].ident || a.segments[i].arguments
            != b.segments[i].arguments {
            proof {
                if a@ == b@ {
                    assert(a@.segments[i as int] == b@.segments[i as int]);
                }
            }
            return false;
        }
        i = i + 1;
    }
    assert(a@.segments =~= b@.segments);
    true
}

// ---------------------------------------------------------------------------
// Types, patterns and arguments
// ---------------------------------------------------------------------------

/// A type: a reference, a path, or another type; each with the text of its
/// tokens.
#[derive(Debug)]
pub enum TypeSyntax {
    Reference { mutable: bool, elem: Box<TypeSyntax>, tokens: String },
    Path { path: PathSyntax, tokens: String },
    Other { tokens: String },
}

pub enum TypeView {
    Reference { mutable: bool, elem: Box<TypeView>, tokens: Seq<char> },
    Path { path: PathView, tokens: Seq<char> },
    Other { tokens: Seq<char> },
}

/// The view of a type.
pub open spec fn type_view(t: TypeSyntax) -> TypeView
    decreases t,
{
    match t {
        TypeSyntax::Reference { mutable, elem, tokens } => TypeView::Reference {
            mutable,
            elem: Box::new(type_view(*elem)),
            tokens: tokens@,
        },
        TypeSyntax::Path { path, tokens } => TypeView::Path { path: path@, tokens: tokens@ },
        TypeSyntax::Other { tokens } => TypeView::Other { tokens: tokens@ },
    }
}

impl View for TypeSyntax {
    type V = TypeView;

    open spec fn view(&self) -> TypeView {
        type_view(*self)
    }
}

impl TypeView {
    /// The text of the type's tokens.
    pub open spec fn tokens(self) -> Seq<char> {
        match self {
            TypeView::Reference { tokens, .. } => tokens,
            TypeView::Path { tokens, .. } => tokens,
            TypeView::Other { tokens } => tokens,
        }
    }

    /// Every path in the type has a segment.
    pub open spec fn paths_ok(self) -> bool
        decreases self,
    {
        match self {
            TypeView::Reference { elem, .. } => elem.paths_ok(),
            TypeView::Path { path, .. } => path.segments.len() > 0,
            TypeView::Other { .. } => true,
        }
    }
}

impl Clone for TypeSyntax {
    fn clone(&self) -> (r: Self)
        ensures
            r@ == self@,
        decreases self,
    {
        match self {
            TypeSyntax::Reference { mutable, elem, tokens } => {
                let e = (**elem).clone();
                TypeSyntax::Reference { mutable: *mutable, elem: Box::new(e), tokens: tokens.clone() }
            },
            TypeSyntax::Path { path, tokens } => TypeSyntax::Path {
                path: path.clone(),
                tokens: tokens.clone(),
            },
            TypeSyntax::Other { tokens } => TypeSyntax::Other { tokens: tokens.clone() },
        }
    }
}

impl TypeSyntax {
    /// Whether every path in the type has a segment.
    pub fn paths_ok(&self) -> (r: bool)
        ensures
            r == self@.paths_ok(),
        decreases self,
    {
        match self {
            TypeSyntax::Reference { elem, .. } => elem.paths_ok(),
            TypeSyntax::Path { path, .. } => path.segments.len() > 0,
            TypeSyntax::Other { .. } => true,
        }
    }

    /// The text of the type's tokens.
    pub fn tokens(&self) -> (r: &String)
        ensures
            r@ == self@.tokens(),
    {
        match self {
            TypeSyntax::Reference { tokens, .. } => tokens,
            TypeSyntax::Path { tokens, .. } => tokens,
            TypeSyntax::Other { tokens } => tokens,
        }
    }
}

/// The pattern of an argument: a name, `_`, or another pattern.
#[derive(Debug)]
pub enum PatSyntax {
    Ident(String),
    Wild,
    Other,
}

pub enum PatView {
    Ident(Seq<char>),
    Wild,
    Other,
}

impl View for PatSyntax {
    type V = PatView;

    open spec fn view(&self) -> PatView {
        match self {
            PatSyntax::Ident(s) => PatView::Ident(s@),
            PatSyntax::Wild => PatView::Wild,
            PatSyntax::Other => PatView::Other,
        }
    }
}

impl Clone for PatSyntax {
    fn clone(&self) -> (r: Self)
        ensures
            r@ == self@,
    {
        match self {
            PatSyntax::Ident(s) => PatSyntax::Ident(s.clone()),
            PatSyntax::Wild => PatSyntax::Wild,
            PatSyntax::Other => PatSyntax::Other,
        }
    }
}

/// An argument in a signature: `&self` or `&mut self`, `self`, a pattern
/// with a type, or another form.
#[derive(Debug)]
pub enum FnArgSyntax {
    SelfRef,
    SelfValue,
    Captured { pat: PatSyntax, ty: TypeSyntax },
    Other,
}

pub enum FnArgView {
    SelfRef,
    SelfValue,
    Captured { pat: PatView, ty: TypeView },
    Other,
}

impl View for FnArgSyntax {
    type V = FnArgView;

    open spec fn view(&self) -> FnArgView {
        match self {
            FnArgSyntax::SelfRef => FnArgView::SelfRef,
            FnArgSyntax::SelfValue => FnArgView::SelfValue,
            FnArgSyntax::Captured { pat, ty } => FnArgView::Captured { pat: pat@, ty: ty@ },
            FnArgSyntax::Other => FnArgView::Other,
        }
    }
}

impl Clone for FnArgSyntax {
    fn clone(&self) -> (r: Self)
        ensures
            r@ == self@,
    {
        match self {
            FnArgSyntax::SelfRef => FnArgSyntax::SelfRef,
            FnArgSyntax::SelfValue => FnArgSyntax::SelfValue,
            FnArgSyntax::Captured { pat, ty } => FnArgSyntax::Captured {
                pat: pat.clone(),
                ty: ty.clone(),
            },
            FnArgSyntax::Other => FnArgSyntax::Other,
        }
    }
}

impl FnArgView {
    /// Every path in the argument's type has a segment.
    pub open spec fn paths_ok(self) -> bool {
        match self {
            FnArgView::Captured { ty, .. } => ty.paths_ok(),
            _ => true,
        }
    }
}

impl FnArgSyntax {
    /// Whether every path in the argument's type has a segment.
    pub fn paths_ok(&self) -> (r: bool)
        ensures
            r == self@.paths_ok(),
    {
        match self {
            FnArgSyntax::Captured { ty, .. } => ty.paths_ok(),
            _ => true,
        }
    }
}

/// The views of arguments.
pub open spec fn arg_views(s: Seq<FnArgSyntax>) -> Seq<FnArgView> {
    s.map_values(|a: FnArgSyntax| a@)
}

// ---------------------------------------------------------------------------
// Generics, attributes, signatures
// ---------------------------------------------------------------------------

/// Generic parameters, as the tokens of their form after `impl` (with
/// bounds) and after the type's name (without bounds); both are empty when
/// there are none.
#[derive(Debug)]
pub struct GenericsSyntax {
    pub impl_generics: String,
    pub type_generics: String,
}

pub struct GenericsView {
    pub impl_generics: Seq<char>,
    pub type_generics: Seq<char>,
}

impl View for GenericsSyntax {
    type V = GenericsView;

    open spec fn view(&self) -> GenericsView {
        GenericsView { impl_generics: self.impl_generics@, type_generics: self.type_generics@ }
    }
}

impl Clone for GenericsSyntax {
    fn clone(&self) -> (r: Self)
        ensures
            r@ == self@,
    {
        GenericsSyntax {
            impl_generics: self.impl_generics.clone(),
            type_generics: self.type_generics.clone(),
        }
    }
}

impl GenericsSyntax {
    /// No generic parameters.
    pub fn empty() -> (r: Self)
        ensures
            r@.impl_generics.len() == 0,
            r@.type_generics.len() == 0,
    {
        GenericsSyntax { impl_generics: String::new(), type_generics: String::new() }
    }
}

/// An attribute: the debug text of its path and the text of its tokens.
#[derive(Debug)]
pub struct AttributeSyntax {
    pub path_debug: String,
    pub tokens: String,
}

pub struct AttributeView {
    pub path_debug: Seq<char>,
    pub tokens: Seq<char>,
}

impl View for AttributeSyntax {
    type V = AttributeView;

    open spec fn view(&self) -> AttributeView {
        AttributeView { path_debug: self.path_debug@, tokens: self.tokens@ }
    }
}

/// The views of attributes.
pub open spec fn attribute_views(s: Seq<AttributeSyntax>) -> Seq<AttributeView> {
    s.map_values(|a: AttributeSyntax| a@)
}

/// A method's signature: its name, its arguments and its return type
/// (`None` when it returns `()` implicitly).
#[derive(Debug)]
pub struct SignatureSyntax {
    pub ident: String,
    pub inputs: Vec<FnArgSyntax>,
    pub output: Option<TypeSyntax>,
}

pub struct SignatureView {
    pub ident: Seq<char>,
    pub inputs: Seq<FnArgView>,
    pub output: Option<TypeView>,
}

impl View for SignatureSyntax {
    type V = SignatureView;

    open spec fn view(&self) -> SignatureView {
        SignatureView {
            ident: self.ident@,
            inputs: arg_views(self.inputs@),
            output: match self.output {
                Some(t) => Some(t@),
                None => None,
            },
        }
    }
}

impl SignatureView {
    /// Every path in the signature has a segment.
    pub open spec fn paths_ok(self) -> bool {
        &&& forall|i: int| 0 <= i < self.inputs.len() ==> #[trigger] self.inputs[i].paths_ok()
        &&& self.output matches Some(t) ==> t.paths_ok()
    }
}

impl SignatureSyntax {
    /// Whether every path in the signature has a segment.
    pub fn paths_ok(&self) -> (r: bool)
        ensures
            r == self@.paths_ok(),
    {
        let mut i: usize = 0;
        while i < self.inputs.len()
            invariant
                i <= self.inputs@.len(),
                forall|k: int| 0 <= k < i ==> #[trigger] self@.inputs[k].paths_ok(),
            decreases self.inputs@.len() - i,
        {
            if !self.inputs[i].paths_ok() {
                assert(!self@.inputs[i as int].paths_ok());
                return false;
            }
            i = i + 1;
        }
        match &self.output {
            Some(t) => t.paths_ok(),
            None => true,
        }
    }
}

// ---------------------------------------------------------------------------
// Items
// ---------------------------------------------------------------------------

/// An item of an `impl` block: a method, or anything else.
#[derive(Debug)]
pub enum ImplItemSyntax {
    Method { public: bool, sig: SignatureSyntax, attrs: Vec<AttributeSyntax> },
    Other,
}

pub enum ImplItemView {
    Method { public: bool, sig: SignatureView, attrs: Seq<AttributeView> },
    Other,
}

impl View for ImplItemSyntax {
    type V = ImplItemView;

    open spec fn view(&self) -> ImplItemView {
        match self {
            ImplItemSyntax::Method { public, sig, attrs } => ImplItemView::Method {
                public: *public,
                sig: sig@,
                attrs: attribute_views(attrs@),
            },
            ImplItemSyntax::Other => ImplItemView::Other,
        }
    }
}

/// The views of impl items.
pub open spec fn impl_item_views(s: Seq<ImplItemSyntax>) -> Seq<ImplItemView> {
    s.map_values(|a: ImplItemSyntax| a@)
}

/// An item of a trait: a method, or anything else.
#[derive(Debug)]
pub enum TraitItemSyntax {
    Method { sig: SignatureSyntax },
    Other,
}

pub enum TraitItemView {
    Method { sig: SignatureView },
    Other,
}

impl View for TraitItemSyntax {
    type V = TraitItemView;

    open spec fn view(&self) -> TraitItemView {
        match self {
            TraitItemSyntax::Method { sig } => TraitItemView::Method { sig: sig@ },
            TraitItemSyntax::Other => TraitItemView::Other,
        }
    }
}

/// The views of trait items.
pub open spec fn trait_item_views(s: Seq<TraitItemSyntax>) -> Seq<TraitItemView> {
    s.map_values(|a: TraitItemSyntax| a@)
}

/// An item of a file: a struct, an `impl` block, a trait, or anything else.
#[derive(Debug)]
#[allow(inconsistent_fields)]
pub enum ItemSyntax {
    Struct { ident: String, generics: GenericsSyntax },
    Impl {
        trait_path: Option<PathSyntax>,
        self_ty: TypeSyntax,
        items: Vec<ImplItemSyntax>,
        generics: GenericsSyntax,
    },
    Trait { ident: String, items: Vec<TraitItemSyntax>, generics: GenericsSyntax },
    Other,
}

#[allow(inconsistent_fields)]
pub enum ItemView {
    Struct { ident: Seq<char>, generics: GenericsView },
    Impl {
        trait_path: Option<PathView>,
        self_ty: TypeView,
        items: Seq<ImplItemView>,
        generics: GenericsView,
    },
    Trait { ident: Seq<char>, items: Seq<TraitItemView>, generics: GenericsView },
    Other,
}

impl View for ItemSyntax {
    type V = ItemView;

    open spec fn view(&self) -> ItemView {
        match self {
            ItemSyntax::Struct { ident, generics } => ItemView::Struct {
                ident: ident@,
                generics: generics@,
            },
            ItemSyntax::Impl { trait_path, self_ty, items, generics } => ItemView::Impl {
                trait_path: opt_path_view(*trait_path),
                self_ty: self_ty@,
                items: impl_item_views(items@),
                generics: generics@,
            },
            ItemSyntax::Trait { ident, items, generics } => ItemView::Trait {
                ident: ident@,
                items: trait_item_views(items@),
                generics: generics@,
            },
            ItemSyntax::Other => ItemView::Other,
        }
    }
}

impl ImplItemView {
    /// Every path in the item has a segment.
    pub open spec fn paths_ok(self) -> bool {
        match self {
            ImplItemView::Method { sig, .. } => sig.paths_ok(),
            ImplItemView::Other => true,
        }
    }
}

impl TraitItemView {
    /// Every path in the item has a segment.
    pub open spec fn paths_ok(self) -> bool {
        match self {
            TraitItemView::Method { sig } => sig.paths_ok(),
            TraitItemView::Other => true,
        }
    }
}

impl ItemView {
    /// The item is one that the model can be built from: an `impl` block is
    /// for a type named by a path, and every path has a segment.
    pub open spec fn supported(self) -> bool {
        match self {
            ItemView::Impl { trait_path, self_ty, items, .. } => {
                &&& trait_path matches Some(p) ==> p.segments.len() > 0
                &&& self_ty matches TypeView::Path { path, .. } && path.segments.len() > 0
                &&& forall|i: int| 0 <= i < items.len() ==> #[trigger] items[i].paths_ok()
            },
            ItemView::Trait { items, .. } => forall|i: int|
                0 <= i < items.len() ==> #[trigger] items[i].paths_ok(),
            _ => true,
        }
    }
}

impl ItemView {
    /// Every path in the item has a segment.
    pub open spec fn paths_ok(self) -> bool {
        match self {
            ItemView::Impl { trait_path, self_ty, items, .. } => {
                &&& trait_path matches Some(p) ==> p.segments.len() > 0
                &&& self_ty.paths_ok()
                &&& forall|i: int| 0 <= i < items.len() ==> #[trigger] items[i].paths_ok()
            },
            ItemView::Trait { items, .. } => forall|i: int|
                0 <= i < items.len() ==> #[trigger] items[i].paths_ok(),
            _ => true,
        }
    }

    /// The item is not an `impl` block for a type that is not named by a
    /// path (such as a reference or a tuple).
    pub open spec fn impl_on_path(self) -> bool {
        self matches ItemView::Impl { self_ty, .. } ==> self_ty is Path
    }

    /// An item whose paths have segments and that is no `impl` block for a
    /// type without a path is one that the model can be built from.
    pub proof fn lemma_supported(self)
        requires
            self.paths_ok(),
            self.impl_on_path(),
        ensures
            self.supported(),
    {
    }
}

impl ItemSyntax {
    /// Whether the item is not an `impl` block for a type that is not named
    /// by a path.
    pub fn impl_on_path(&self) -> (r: bool)
        ensures
            r == self@.impl_on_path(),
    {
        match self {
            ItemSyntax::Impl { self_ty, .. } => match self_ty {
                TypeSyntax::Path { .. } => true,
                _ => false,
            },
            _ => true,
        }
    }

    /// Whether the item is one that the model can be built from.
    pub fn supported(&self) -> (r: bool)
        ensures
            r == self@.supported(),
    {
        match self {
            ItemSyntax::Impl { trait_path, self_ty, items, .. } => {
                if let Some(p) = trait_path {
                    if p.segments.len() == 0 {
                        return false;
                    }
                }
                match self_ty {
                    TypeSyntax::Path { path, .. } => {
                        if path.segments.len() == 0 {
                            return false;
                        }
                        assert(self_ty@ matches TypeView::Path { path: q, .. } && q.segments.len() > 0);
                    },
                    _ => {
                        return false;
                    },
                }
                let ok = impl_items_ok(items);
                assert(self@ matches ItemView::Impl { items: its, .. } && its == impl_item_views(items@));
                ok
            },
            ItemSyntax::Trait { items, .. } => {
                let ok = trait_items_ok(items);
                assert(self@ matches ItemView::Trait { items: its, .. } && its == trait_item_views(items@));
                ok
            },
            _ => true,
        }
    }
}

/// Whether every path in the impl items has a segment.
fn impl_items_ok(items: &Vec<ImplItemSyntax>) -> (r: bool)
    ensures
        r == forall|k: int| 0 <= k < items@.len() ==> #[trigger] impl_item_views(items@)[k].paths_ok(),
{
    let mut i: usize = 0;
    while i < items.len()
        invariant
            i <= items@.len(),
            forall|k: int| 0 <= k < i ==> #[trigger] impl_item_views(items@)[k].paths_ok(),
        decreases items@.len() - i,
    {
        let ok = match &items[i] {
            ImplItemSyntax::Method { sig, .. } => sig.paths_ok(),
            ImplItemSyntax::Other => true,
        };
        if !ok {
            assert(!impl_item_views(items@)[i as int].paths_ok());
            return false;
        }
        i = i + 1;
    }
    true
}

/// Whether every path in the trait items has a segment.
fn trait_items_ok(items: &Vec<TraitItemSyntax>) -> (r: bool)
    ensures
        r == forall|k: int| 0 <= k < items@.len() ==> #[trigger] trait_item_views(items@)[k].paths_ok(),
{
    let mut i: usize = 0;
    while i < items.len()
        invariant
            i <= items@.len(),
            forall|k: int| 0 <= k < i ==> #[trigger] trait_item_views(items@)[k].paths_ok(),
        decreases items@.len() - i,
    {
        let ok = match &items[i] {
            TraitItemSyntax::Method { sig } => sig.paths_ok(),
            TraitItemSyntax::Other => true,
        };
        if !ok {
            assert(!trait_item_views(items@)[i as int].paths_ok());
            return false;
        }
        i = i + 1;
    }
    true
}

/// The items of a source file.
#[derive(Debug)]
pub struct FileSyntax {
    pub items: Vec<ItemSyntax>,
}

pub struct FileView {
    pub items: Seq<ItemView>,
}

/// The views of items.
pub open spec fn item_views(s: Seq<ItemSyntax>) -> Seq<ItemView> {
    s.map_values(|a: ItemSyntax| a@)
}

impl View for FileSyntax {
    type V = FileView;

    open spec fn view(&self) -> FileView {
        FileView { items: item_views(self.items@) }
    }
}

impl FileView {
    /// Every item is one that the model can be built from.
    pub open spec fn supported(self) -> bool {
        forall|i: int| 0 <= i < self.items.len() ==> #[trigger] self.items[i].supported()
    }
}

impl FileView {
    /// Every path in the file has a segment.
    pub open spec fn paths_ok(self) -> bool {
        forall|i: int| 0 <= i < self.items.len() ==> #[trigger] self.items[i].paths_ok()
    }

    /// No `impl` block of the file is for a type that is not named by a
    /// path.
    pub open spec fn impls_on_paths(self) -> bool {
        forall|i: int| 0 <= i < self.items.len() ==> #[trigger] self.items[i].impl_on_path()
    }

    /// A file whose paths have segments and whose `impl` blocks are all for
    /// types named by paths is one that the model can be built from.
    pub proof fn lemma_supported(self)
        requires
            self.paths_ok(),
            self.impls_on_paths(),
        ensures
            self.supported(),
    {
        assert forall|i: int| 0 <= i < self.items.len() implies #[trigger] self.items[i].supported() by {
            self.items[i].lemma_supported();
        }
    }
}

impl FileSyntax {
    /// Whether no `impl` block of the file is for a type that is not named
    /// by a path.
    pub fn impls_on_paths(&self) -> (r: bool)
        ensures
            r == self@.impls_on_paths(),
    {
        let mut i: usize = 0;
        while i < self.items.len()
            invariant
                i <= self.items@.len(),
                forall|k: int| 0 <= k < i ==> #[trigger] self@.items[k].impl_on_path(),
            decreases self.items@.len() - i,
        {
            if !self.items[i].impl_on_path() {
                assert(!self@.items[i as int].impl_on_path());
                return false;
            }
            i = i + 1;
        }
        true
    }

    /// Whether every item is one that the model can be built from.
    pub fn supported(&self) -> (r: bool)
        ensures
            r == self@.supported(),
    {
        let mut i: usize = 0;
        while i < self.items.len()
            invariant
                i <= self.items@.len(),
                forall|k: int| 0 <= k < i ==> #[trigger] self@.items[k].supported(),
            decreases self.items@.len() - i,
        {
            if !self.items[i].supported() {
                assert(!self@.items[i as int].supported());
                return false;
            }
            i = i + 1;
        }
        true
    }
}

// ---------------------------------------------------------------------------
// Parsing with syn
// ---------------------------------------------------------------------------

/// The syntax of a Rust source file as `syn::parse_file` reads it, or `None`
/// where it is not valid Rust.
pub uninterp spec fn rust_file_syntax(text: Seq<char>) -> Option<FileView>;

/// `syn::parse_file`: parses Rust source text. Its tree is converted, one
/// node for one node, into the plain syntax above; the result is a function
/// of the text alone, which `rust_file_syntax` names. Every path that syn
/// parses has at least one segment (its path parsers read a first segment
/// or fail), so every path of the result has one. The syntax error is
/// passed on as it is; nothing is stated of it.
#[verifier::external_body]
pub(crate) fn parse_rust_file(text: &str) -> (r: Result<FileSyntax, syn::Error>)
    ensures
        r is Ok <==> rust_file_syntax(text@) is Some,
        r matches Ok(f) ==> rust_file_syntax(text@) == Some(f@) && f@.paths_ok(),
{
    match syn::parse_file(text) {
        Ok(file) => Ok(FileSyntax { items: file.items.iter().map(item_syntax).collect() }),
        Err(e) => Err(e),
    }
}

/// Converts a `syn::Item` (part of `parse_rust_file`, whose contract covers
/// the whole tree).
#[verifier::external_body]
fn item_syntax(item: &syn::Item) -> ItemSyntax {
    match item {
        syn::Item::Struct(s) => ItemSyntax::Struct { ident: s.ident.to_string(), generics: generics_syntax(&s.generics) },
        syn::Item::Impl(i) => ItemSyntax::Impl {
            trait_path: i.trait_.as_ref().map(|t| path_syntax(&t.1)),
            self_ty: type_syntax(&i.self_ty),
            items: i.items.iter().map(impl_item_syntax).collect(),
            generics: generics_syntax(&i.generics),
        },
        syn::Item::Trait(t) => ItemSyntax::Trait {
            ident: t.ident.to_string(),
            items: t.items.iter().map(trait_item_syntax).collect(),
            generics: generics_syntax(&t.generics),
        },
        _ => ItemSyntax::Other,
    }
}

/// Converts a `syn::ImplItem` (part of `parse_rust_file`, whose contract covers
/// the whole tree).
#[verifier::external_body]
fn impl_item_syntax(item: &syn::ImplItem) -> ImplItemSyntax {
    match item {
        syn::ImplItem::Method(m) => ImplItemSyntax::Method {
            public: match m.vis {
                syn::Visibility::Public(_) => true,
                _ => false,
            },
            sig: signature_syntax(&m.sig),
            attrs: m.attrs.iter().map(|a| AttributeSyntax { path_debug: format!("{:?}", a.path), tokens: a.tts.to_string() }).collect(),
        },
        _ => ImplItemSyntax::Other,
    }
}

/// Converts a `syn::TraitItem` (part of `parse_rust_file`, whose contract covers
/// the whole tree).
#[verifier::external_body]
fn trait_item_syntax(item: &syn::TraitItem) -> TraitItemSyntax {
    match item {
        syn::TraitItem::Method(m) => TraitItemSyntax::Method { sig: signature_syntax(&m.sig) },
        _ => TraitItemSyntax::Other,
    }
}

/// Converts a `syn::MethodSig` (part of `parse_rust_file`, whose contract covers
/// the whole tree).
#[verifier::external_body]
fn signature_syntax(sig: &syn::MethodSig) -> SignatureSyntax {
    SignatureSyntax {
        ident: sig.ident.to_string(),
        inputs: sig.decl.inputs.iter().map(fn_arg_syntax).collect(),
        output: match &sig.decl.output {
            syn::ReturnType::Default => None,
            syn::ReturnType::Type(_, t) => Some(type_syntax(t)),
        },
    }
}

/// Converts a `syn::FnArg` (part of `parse_rust_file`, whose contract covers
/// the whole tree).
#[verifier::external_body]
fn fn_arg_syntax(arg: &syn::FnArg) -> FnArgSyntax {
    match arg {
        syn::FnArg::SelfRef(_) => FnArgSyntax::SelfRef,
        syn::FnArg::SelfValue(_) => FnArgSyntax::SelfValue,
        syn::FnArg::Captured(c) => FnArgSyntax::Captured { pat: pat_syntax(&c.pat), ty: type_syntax(&c.ty) },
        syn::FnArg::Inferred(_) => FnArgSyntax::Other,
        syn::FnArg::Ignored(_) => FnArgSyntax::Other,
    }
}

/// Converts a `syn::Pat` (part of `parse_rust_file`, whose contract covers
/// the whole tree).
#[verifier::external_body]
fn pat_syntax(pat: &syn::Pat) -> PatSyntax {
    match pat {
        syn::Pat::Ident(p) => PatSyntax::Ident(p.ident.to_string()),
        syn::Pat::Wild(_) => PatSyntax::Wild,
        _ => PatSyntax::Other,
    }
}

/// Converts a `syn::Type` (part of `parse_rust_file`, whose contract covers
/// the whole tree).
#[verifier::external_body]
fn type_syntax(ty: &syn::Type) -> TypeSyntax {
    let tokens = ty.into_token_stream().to_string();
    match ty {
        syn::Type::Reference(r) => TypeSyntax::Reference { mutable: r.mutability.is_some(), elem: Box::new(type_syntax(&r.elem)), tokens },
        syn::Type::Path(p) => TypeSyntax::Path { path: path_syntax(&p.path), tokens },
        _ => TypeSyntax::Other { tokens },
    }
}

/// Converts a `syn::Path` (part of `parse_rust_file`, whose contract covers
/// the whole tree).
#[verifier::external_body]
fn path_syntax(path: &syn::Path) -> PathSyntax {
    PathSyntax {
        leading_colon: path.leading_colon.is_some(),
        segments: path.segments.iter().map(|s| PathSegmentSyntax { ident: s.ident.to_string(), arguments: s.arguments.clone().into_token_stream().to_string() }).collect(),
    }
}

/// Converts `syn::Generics` (part of `parse_rust_file`, whose contract covers
/// the whole tree).
#[verifier::external_body]
fn generics_syntax(generics: &syn::Generics) -> GenericsSyntax {
    let (impl_generics, type_generics, _) = generics.split_for_impl();
    GenericsSyntax {
        impl_generics: impl_generics.into_token_stream().to_string(),
        type_generics: type_generics.into_token_stream().to_string(),
    }
}

} // verus!
