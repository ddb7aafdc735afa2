//! Component resources: for classes decorated with `@Component({...})` where
//! `Component` resolves to an `@angular/core` import,
//!
//! - `templateUrl: './x.html'` → `template: require("./x.html")` (require
//!   mode) or a hoisted `import __NG_CLI_RESOURCE__N from "./x.html"` and
//!   `template: __NG_CLI_RESOURCE__N` (import mode);
//! - `styleUrls`, `styleUrl`, `styles`, `moduleId` → removed; or, with
//!   `keep_styles`, style URLs become imports/requires (with an optional query
//!   parameter) merged after the inline `styles` into one `styles: [...]`.
//!   `moduleId` is removed either way.
//!
//! The `@angular/core` origin is tracked through the imports (named
//! specifiers, aliases, and namespace imports).

use vstd::prelude::*;
use vstd::string::StrSliceExecFns;

use crate::estree::{
    export_name, flag, get_export_name, get_flag, get_import_source, get_key_name, get_span,
    get_static_string, import_source, is, key_name, span_of, static_string,
};
use crate::json::{as_arr, field, get, get_arr, get_str, has_type, is_type, str_field, Json};
use crate::text::{
    bytes_contain, decimal, encode_utf8_prefix_char, js_string, join, join_bytes, occurs,
    push_bytes, push_decimal, push_js_string, push_slice, push_str, slice, Edit, EditV,
};
use crate::walk::{Event, Visitor};

verus! {

pub const RESOURCE_PREFIX: &'static str = "__NG_CLI_RESOURCE__";

pub const STYLE_PREFIX: &'static str = "__oxc_ng_style_";

pub const ANGULAR_CORE: &'static str = "@angular/core";

/// State of the resource pass.
pub struct ResourceTransform {
    /// Emit a hoisted top-level `import` instead of `require(...)`.
    use_import: bool,
    /// Rewrite `styleUrl(s)` instead of stripping all style metadata.
    keep_styles: bool,
    /// Query parameter appended to each rewritten style URL.
    style_query: Option<String>,
    /// Local names that refer to `Component` from `@angular/core`.
    component_locals: Vec<String>,
    /// Local names of `import * as ng from '@angular/core'`.
    component_namespaces: Vec<String>,
    /// Import mode: `(local var, specifier)` pairs to hoist, in order.
    pending_imports: Vec<(Vec<u8>, Vec<u8>)>,
    /// Counter for `__NG_CLI_RESOURCE__N` names.
    counter: usize,
    /// Counter for hoisted style names (shared by all components of the file).
    style_counter: usize,
    /// Prefix for hoisted style identifiers: `__oxc_ng_style_` with as many
    /// leading underscores as it takes not to occur in the source.
    style_prefix: String,
    /// Whether this pass changed anything.
    pub changed: bool,
    /// The module's source text.
    source: Vec<u8>,
    /// Rewrites of component metadata objects, in source order.
    edits: Vec<Edit>,
}

/// The state of the resource pass as plain values.
pub struct ResourceView {
    pub use_import: bool,
    pub keep_styles: bool,
    pub query: Option<Seq<char>>,
    pub locals: Seq<Seq<char>>,
    pub namespaces: Seq<Seq<char>>,
    pub imports: Seq<(Seq<u8>, Seq<u8>)>,
    pub counter: nat,
    pub style_counter: nat,
    pub prefix: Seq<char>,
    pub changed: bool,
    pub src: Seq<u8>,
    pub edits: Seq<EditV>,
}

pub open spec fn string_views(v: Seq<String>) -> Seq<Seq<char>> {
    v.map_values(|s: String| s@)
}

pub open spec fn pair_views(v: Seq<(Vec<u8>, Vec<u8>)>) -> Seq<(Seq<u8>, Seq<u8>)> {
    v.map_values(|p: (Vec<u8>, Vec<u8>)| (p.0@, p.1@))
}

impl View for ResourceTransform {
    type V = ResourceView;

    closed spec fn view(&self) -> ResourceView {
        ResourceView {
            use_import: self.use_import,
            keep_styles: self.keep_styles,
            query: match self.style_query {
                Some(q) => Some(q@),
                None => None,
            },
            locals: string_views(self.component_locals@),
            namespaces: string_views(self.component_namespaces@),
            imports: pair_views(self.pending_imports@),
            counter: self.counter as nat,
            style_counter: self.style_counter as nat,
            prefix: self.style_prefix@,
            changed: self.changed,
            src: self.source@,
            edits: crate::text::edit_views(self.edits@),
        }
    }
}

/// `k` underscores.
pub open spec fn underscores(k: nat) -> Seq<char> {
    Seq::new(k, |_i: int| '_')
}

/// The style prefix after `k` escalations.
pub open spec fn escalated_prefix(k: nat) -> Seq<char> {
    underscores(k) + STYLE_PREFIX@
}

/// `prefix` is the least escalation of the style prefix that does not occur
/// in `src`.
pub open spec fn least_free_prefix(src: Seq<u8>, prefix: Seq<char>) -> bool {
    exists|k: nat|
        {
            &&& prefix == escalated_prefix(k)
            &&& !occurs(src, vstd::utf8::encode_utf8(prefix))
            &&& forall|j: nat|
                j < k ==> occurs(src, vstd::utf8::encode_utf8(#[trigger] escalated_prefix(j)))
        }
}

impl ResourceTransform {
    pub fn new(use_import: bool, keep_styles: bool, style_query: Option<String>, source: &str) -> (r:
        Self)
        ensures
            r@.use_import == use_import,
            r@.keep_styles == keep_styles,
            r@.query == match style_query {
                Some(q) => Some(q@),
                None => None,
            },
            r@.locals.len() == 0,
            r@.namespaces.len() == 0,
            r@.imports.len() == 0,
            r@.counter == 0,
            r@.style_counter == 0,
            least_free_prefix(r@.src, r@.prefix),
            !r@.changed,
            r@.src == vstd::utf8::encode_utf8(source@),
            r@.edits.len() == 0,
    {
        let bytes = source.as_bytes();
        let mut style_prefix = STYLE_PREFIX.to_string();
        let ghost mut k: nat = 0;
        assert(style_prefix@ =~= escalated_prefix(0));
        while bytes_contain(bytes, style_prefix.as_str().as_bytes())
            invariant
                style_prefix@ == escalated_prefix(k),
                forall|j: nat|
                    j < k ==> occurs(bytes@, vstd::utf8::encode_utf8(#[trigger] escalated_prefix(j))),
            decreases bytes@.len() + 1 - vstd::utf8::encode_utf8(style_prefix@).len(),
        {
            proof {
                let p = vstd::utf8::encode_utf8(style_prefix@);
                let at = choose|at: int| crate::text::occurs_at(bytes@, p, at);
                assert(p.len() <= bytes@.len());
                encode_utf8_prefix_char('_', style_prefix@);
            }
            let mut next = "_".to_string();
            next.append(style_prefix.as_str());
            proof {
                reveal_strlit("_");
                assert(next@ =~= seq!['_'] + style_prefix@);
                assert(next@ =~= escalated_prefix(k + 1));
                assert forall|j: nat|
                    j < k + 1 implies occurs(
                    bytes@,
                    vstd::utf8::encode_utf8(#[trigger] escalated_prefix(j)),
                ) by {
                    if j == k {
                    }
                }
                k = k + 1;
            }
            style_prefix = next;
        }
        let r = ResourceTransform {
            use_import,
            keep_styles,
            style_query,
            component_locals: Vec::new(),
            component_namespaces: Vec::new(),
            pending_imports: Vec::new(),
            counter: 0,
            style_counter: 0,
            style_prefix,
            changed: false,
            source: vstd::slice::slice_to_vec(bytes),
            edits: Vec::new(),
        };
        assert(r@.locals =~= seq![]);
        assert(r@.namespaces =~= seq![]);
        assert(r@.imports =~= seq![]);
        assert(r@.edits =~= seq![]);
        r
    }
}

/// Normalize a resource path the way jest-preset-angular does: a path that
/// does not start with `.` or `/` gets a `./` prefix.
pub open spec fn normalized(url: Seq<char>) -> Seq<char> {
    if url.len() > 0 && (url[0] == '.' || url[0] == '/') {
        url
    } else {
        seq!['.', '/'] + url
    }
}

/// A normalized path is left as it is by normalizing it again.
pub proof fn lemma_normalized_idempotent(url: Seq<char>)
    ensures
        normalized(normalized(url)) == normalized(url),
{
}

/// Normalize a resource path (see [`normalized`]).
pub fn normalize_url(url: &str) -> (r: String)
    ensures
        r@ == normalized(url@),
{
    if !url.is_empty() {
        let c = url.get_char(0);
        if c == '.' || c == '/' {
            return url.to_string();
        }
    }
    let mut r = "./".to_string();
    r.append(url);
    proof {
        reveal_strlit("./");
        assert(r@ =~= seq!['.', '/'] + url@);
    }
    r
}

/// The UTF-8 bytes of a text.
pub open spec fn enc(s: Seq<char>) -> Seq<u8> {
    vstd::utf8::encode_utf8(s)
}

/// A counter after one more use; it stays put at `usize::MAX`.
pub open spec fn bump(n: nat) -> nat {
    if n < usize::MAX {
        n + 1
    } else {
        n
    }
}

/// `require("<specifier>")`.
pub open spec fn require_text(specifier: Seq<u8>) -> Seq<u8> {
    enc("require("@) + js_string(specifier) + enc(")"@)
}

/// The value a static `templateUrl` becomes: the hoisted import's local name
/// (import mode, recording the import) or a `require` call.
pub open spec fn template_value(v: ResourceView, url: Seq<char>) -> (ResourceView, Seq<u8>) {
    let norm = enc(normalized(url));
    if v.use_import {
        let var = enc(RESOURCE_PREFIX@) + decimal(v.counter);
        (ResourceView { counter: bump(v.counter), imports: v.imports.push((var, norm)), ..v }, var)
    } else {
        (v, require_text(norm))
    }
}

/// Template imports are fresh: two templates hoisted one after the other
/// (in import mode) get different local names, `__NG_CLI_RESOURCE__<n>`
/// and `__NG_CLI_RESOURCE__<n + 1>` for the count `n` so far, each recorded
/// with its URL after the imports before it (while the count stays below
/// `usize::MAX`, where it stops).
pub proof fn lemma_template_imports_fresh(v: ResourceView, u1: Seq<char>, u2: Seq<char>)
    requires
        v.use_import,
        v.counter + 1 < usize::MAX,
    ensures
        ({
            let (v1, a) = template_value(v, u1);
            let (v2, b) = template_value(v1, u2);
            &&& a == enc(RESOURCE_PREFIX@) + decimal(v.counter)
            &&& b == enc(RESOURCE_PREFIX@) + decimal(v.counter + 1)
            &&& a != b
            &&& v2.imports == v.imports.push((a, enc(normalized(u1)))).push((b, enc(normalized(u2))))
            &&& v2.counter == v.counter + 2
        }),
{
    let p = enc(RESOURCE_PREFIX@);
    let a = p + decimal(v.counter);
    let b = p + decimal(v.counter + 1);
    if a == b {
        assert(a.subrange(p.len() as int, a.len() as int) =~= decimal(v.counter));
        assert(b.subrange(p.len() as int, b.len() as int) =~= decimal(v.counter + 1));
        crate::esm_to_cjs::lemma_decimal_value(v.counter);
        crate::esm_to_cjs::lemma_decimal_value(v.counter + 1);
    }
}

/// The module specifier a style URL becomes: normalized, with the query
/// parameter appended (`?q`, or `&q` when the URL already has a query).
pub open spec fn style_specifier(v: ResourceView, url: Seq<char>) -> Seq<u8> {
    let norm = enc(normalized(url));
    match v.query {
        Some(q) => norm + (if occurs(norm, seq![0x3fu8]) {
            seq![0x26u8]
        } else {
            seq![0x3fu8]
        }) + enc(q),
        None => norm,
    }
}

/// The expression a style URL becomes under `keep_styles`: a hoisted default
/// import's local name (import mode, recording the import) or a `require`.
pub open spec fn style_value(v: ResourceView, url: Seq<char>) -> (ResourceView, Seq<u8>) {
    let specifier = style_specifier(v, url);
    if v.use_import {
        let var = enc(v.prefix) + decimal(v.style_counter) + enc("__"@);
        (
            ResourceView {
                style_counter: bump(v.style_counter),
                imports: v.imports.push((var, specifier)),
                ..v
            },
            var,
        )
    } else {
        (v, require_text(specifier))
    }
}

/// The style values of `urls[..n]`, in order.
pub open spec fn style_values(v: ResourceView, urls: Seq<Seq<char>>, n: nat) -> (
    ResourceView,
    Seq<Seq<u8>>,
)
    decreases n,
{
    if n == 0 || n > urls.len() {
        (v, seq![])
    } else {
        let (v1, texts) = style_values(v, urls, (n - 1) as nat);
        let (v2, t) = style_value(v1, urls[n - 1]);
        (v2, texts.push(t))
    }
}

/// The span of a node, when both ends fit in a `usize`.
pub open spec fn uspan(j: Json) -> Option<(nat, nat)> {
    match span_of(j) {
        Some((s, e)) => if s <= usize::MAX && e <= usize::MAX {
            Some((s, e))
        } else {
            None
        },
        None => None,
    }
}

/// The source text of a node.
pub open spec fn text_of(src: Seq<u8>, j: Json) -> Seq<u8> {
    slice(src, uspan(j))
}

/// How `keep_styles` treats a component's style metadata.
pub enum StylePlan {
    /// Inline `styles` only: preserved verbatim.
    InlineOnly,
    /// Replace the style properties with one merged `styles: [...]` whose
    /// URL-derived entries come from these static URLs.
    Rewrite(Seq<Seq<char>>),
    /// A dynamic style URL or an un-mergeable inline `styles`: leave every
    /// style property untouched.
    Untouched,
}

/// Progress of the style-plan scan: URLs so far, whether a URL property was
/// seen, whether the last inline `styles` can be merged, and whether a
/// dynamic URL was met.
pub struct PlanAcc {
    pub urls: Seq<Seq<char>>,
    pub has_urls: bool,
    pub mergeable: bool,
    pub dynamic: bool,
}

/// The static URLs of the first `n` elements of a `styleUrls` array; `None`
/// as soon as one is not a static string.
pub open spec fn array_urls(elems: Seq<Json>, n: nat) -> Option<Seq<Seq<char>>>
    decreases n,
{
    if n == 0 || n > elems.len() {
        Some(seq![])
    } else {
        match array_urls(elems, (n - 1) as nat) {
            Some(urls) => match static_string(elems[n - 1]) {
                Some(u) => Some(urls.push(u)),
                None => None,
            },
            None => None,
        }
    }
}

/// The value of a property (`null` when missing).
pub open spec fn value_of(p: Json) -> Json {
    match field(p, "value"@) {
        Some(x) => x,
        None => Json::Null,
    }
}

/// Whether an inline `styles` value can be merged: an array literal, a
/// string literal or a template literal.
pub open spec fn mergeable_styles(value: Json) -> bool {
    is_type(value, "ArrayExpression"@) || (is_type(value, "Literal"@) && str_field(
        value,
        "value"@,
    ) is Some) || is_type(value, "TemplateLiteral"@)
}

/// One property of the style-plan scan.
pub open spec fn plan_step(acc: PlanAcc, p: Json) -> PlanAcc {
    if acc.dynamic || !is_type(p, "Property"@) {
        acc
    } else {
        match key_name(p) {
            Some(k) => if k == "styleUrl"@ {
                match static_string(value_of(p)) {
                    Some(u) => PlanAcc { urls: acc.urls.push(u), has_urls: true, ..acc },
                    None => PlanAcc { has_urls: true, dynamic: true, ..acc },
                }
            } else if k == "styleUrls"@ {
                let value = value_of(p);
                match as_arr(field(value, "elements"@)) {
                    Some(elems) => if is_type(value, "ArrayExpression"@) {
                        match array_urls(elems, elems.len()) {
                            Some(us) => PlanAcc { urls: acc.urls + us, has_urls: true, ..acc },
                            None => PlanAcc { has_urls: true, dynamic: true, ..acc },
                        }
                    } else {
                        PlanAcc { has_urls: true, dynamic: true, ..acc }
                    },
                    None => PlanAcc { has_urls: true, dynamic: true, ..acc },
                }
            } else if k == "styles"@ {
                PlanAcc { mergeable: mergeable_styles(value_of(p)), ..acc }
            } else {
                acc
            },
            None => acc,
        }
    }
}

/// The style-plan scan over `props[..n]`.
pub open spec fn plan_scan(props: Seq<Json>, n: nat) -> PlanAcc
    decreases n,
{
    if n == 0 || n > props.len() {
        PlanAcc { urls: seq![], has_urls: false, mergeable: true, dynamic: false }
    } else {
        plan_step(plan_scan(props, (n - 1) as nat), props[n - 1])
    }
}

/// The [`StylePlan`] for the properties of a metadata object.
pub open spec fn plan_styles(props: Seq<Json>) -> StylePlan {
    let acc = plan_scan(props, props.len());
    if acc.dynamic {
        StylePlan::Untouched
    } else if !acc.has_urls {
        StylePlan::InlineOnly
    } else if !acc.mergeable {
        StylePlan::Untouched
    } else {
        StylePlan::Rewrite(acc.urls)
    }
}

/// The elements a merged inline `styles` value contributes: an array
/// literal's elements (holes as empty text), or the value itself.
pub open spec fn inline_elements(src: Seq<u8>, value: Json) -> Seq<Seq<u8>> {
    if is_type(value, "ArrayExpression"@) {
        match as_arr(field(value, "elements"@)) {
            Some(elems) => elems.map_values(|e: Json| text_of(src, e)),
            None => seq![],
        }
    } else {
        seq![text_of(src, value)]
    }
}

/// `template: <value>` (`[template]: <value>` for a computed key).
pub open spec fn template_prop_text(p: Json, value: Seq<u8>) -> Seq<u8> {
    (if flag(p, "computed"@) {
        enc("[template]: "@)
    } else {
        enc("template: "@)
    }) + value
}

/// `styles: [<elements>]`.
pub open spec fn styles_prop_text(elements: Seq<Seq<u8>>) -> Seq<u8> {
    enc("styles: ["@) + join(elements, enc(", "@)) + enc("]"@)
}

/// `{<properties>}`.
pub open spec fn object_text(props: Seq<Seq<u8>>) -> Seq<u8> {
    enc("{"@) + join(props, enc(", "@)) + enc("}"@)
}

/// Progress of a metadata rewrite: pass state, the texts of the properties
/// kept so far, where the merged `styles` goes, the inline style elements
/// collected, and whether anything changed.
pub struct MetaAcc {
    pub v: ResourceView,
    pub texts: Seq<Seq<u8>>,
    pub slot: Option<nat>,
    pub inline: Seq<Seq<u8>>,
    pub touched: bool,
}

/// Whether a property key is one of the style keys.
pub open spec fn is_style_key(k: Seq<char>) -> bool {
    k == "styleUrls"@ || k == "styleUrl"@ || k == "styles"@
}

/// One property of a metadata rewrite.
pub open spec fn meta_step(acc: MetaAcc, plan: Option<StylePlan>, p: Json) -> MetaAcc {
    let kept = MetaAcc { texts: acc.texts.push(text_of(acc.v.src, p)), ..acc };
    if !is_type(p, "Property"@) {
        kept
    } else {
        match key_name(p) {
            Some(k) => if k == "templateUrl"@ {
                match static_string(value_of(p)) {
                    Some(url) => {
                        let (v2, t) = template_value(acc.v, url);
                        MetaAcc {
                            v: v2,
                            texts: acc.texts.push(template_prop_text(p, t)),
                            touched: true,
                            ..acc
                        }
                    },
                    None => kept,
                }
            } else if k == "moduleId"@ {
                MetaAcc { touched: true, ..acc }
            } else if is_style_key(k) {
                match plan {
                    None => MetaAcc { touched: true, ..acc },
                    Some(StylePlan::Rewrite(_)) => MetaAcc {
                        slot: if acc.slot is None {
                            Some(acc.texts.len())
                        } else {
                            acc.slot
                        },
                        inline: if k == "styles"@ {
                            acc.inline + inline_elements(acc.v.src, value_of(p))
                        } else {
                            acc.inline
                        },
                        touched: true,
                        ..acc
                    },
                    Some(_) => kept,
                }
            } else {
                kept
            },
            None => kept,
        }
    }
}

/// The metadata rewrite over `props[..n]`.
pub open spec fn meta_scan(acc: MetaAcc, plan: Option<StylePlan>, props: Seq<Json>, n: nat) -> MetaAcc
    decreases n,
{
    if n == 0 || n > props.len() {
        acc
    } else {
        meta_step(meta_scan(acc, plan, props, (n - 1) as nat), plan, props[n - 1])
    }
}

/// The properties of an object literal.
pub open spec fn properties(obj: Json) -> Seq<Json> {
    match as_arr(field(obj, "properties"@)) {
        Some(ps) => ps,
        None => seq![],
    }
}

/// Rewrite one `@Component` metadata object: inline `templateUrl`, drop
/// `moduleId`, and strip (default) or merge (`keep_styles`) the style
/// metadata. The object's text is replaced only when something changed.
pub open spec fn process_metadata(v: ResourceView, obj: Json) -> ResourceView {
    let props = properties(obj);
    let plan = if v.keep_styles {
        Some(plan_styles(props))
    } else {
        None
    };
    let (v1, url_texts) = match plan {
        Some(StylePlan::Rewrite(urls)) => style_values(v, urls, urls.len()),
        _ => (v, seq![]),
    };
    let acc = meta_scan(
        MetaAcc { v: v1, texts: seq![], slot: None, inline: seq![], touched: false },
        plan,
        props,
        props.len(),
    );
    let texts = match acc.slot {
        Some(k) => if k <= acc.texts.len() {
            acc.texts.insert(k as int, styles_prop_text(acc.inline + url_texts))
        } else {
            acc.texts
        },
        None => acc.texts,
    };
    if acc.touched {
        match uspan(obj) {
            Some((s, e)) => ResourceView {
                changed: true,
                edits: acc.v.edits.push(EditV { start: s, end: e, text: object_text(texts), origin: None }),
                ..acc.v
            },
            None => ResourceView { changed: true, ..acc.v },
        }
    } else {
        acc.v
    }
}

/// Whether a decorator callee names `@angular/core`'s `Component`: a local
/// bound to it, or `<namespace>.Component`.
pub open spec fn is_component_callee(v: ResourceView, callee: Json) -> bool {
    if is_type(callee, "Identifier"@) {
        match str_field(callee, "name"@) {
            Some(n) => v.locals.contains(n),
            None => false,
        }
    } else if is_type(callee, "MemberExpression"@) && !flag(callee, "computed"@) {
        match (field(callee, "property"@), field(callee, "object"@)) {
            (Some(prop), Some(obj)) => is_type(prop, "Identifier"@) && str_field(prop, "name"@)
                == Some("Component"@) && is_type(obj, "Identifier"@) && match str_field(
                obj,
                "name"@,
            ) {
                Some(n) => v.namespaces.contains(n),
                None => false,
            },
            _ => false,
        }
    } else {
        false
    }
}

/// The metadata object of `@Component({...})`, when the decorator is one.
pub open spec fn component_metadata(v: ResourceView, dec: Json) -> Option<Json> {
    match field(dec, "expression"@) {
        Some(call) => if is_type(call, "CallExpression"@) {
            match (field(call, "callee"@), as_arr(field(call, "arguments"@))) {
                (Some(callee), Some(args)) => if is_component_callee(v, callee) && args.len() > 0
                    && is_type(args[0], "ObjectExpression"@) {
                    Some(args[0])
                } else {
                    None
                },
                _ => None,
            }
        } else {
            None
        },
        None => None,
    }
}

/// The decorators of a class.
pub open spec fn decorators(class: Json) -> Seq<Json> {
    match as_arr(field(class, "decorators"@)) {
        Some(ds) => ds,
        None => seq![],
    }
}

/// The resource pass over the first `n` decorators of a class.
pub open spec fn class_scan(v: ResourceView, decs: Seq<Json>, n: nat) -> ResourceView
    decreases n,
{
    if n == 0 || n > decs.len() {
        v
    } else {
        let v1 = class_scan(v, decs, (n - 1) as nat);
        match component_metadata(v1, decs[n - 1]) {
            Some(obj) => process_metadata(v1, obj),
            None => v1,
        }
    }
}

/// Whether a node is a class (declaration or expression).
pub open spec fn is_class(j: Json) -> bool {
    is_type(j, "ClassDeclaration"@) || is_type(j, "ClassExpression"@)
}

/// One traversal step of the resource pass: entering a class with
/// `@angular/core` imports in scope rewrites its `@Component` metadata.
pub open spec fn resource_step(v: ResourceView, e: Event) -> ResourceView {
    if !e.0 && is_class(e.1) && (v.locals.len() > 0 || v.namespaces.len() > 0) {
        let decs = decorators(e.1);
        class_scan(v, decs, decs.len())
    } else {
        v
    }
}

/// A style plan with its URLs held in exec strings.
pub enum Plan {
    InlineOnly,
    Rewrite(Vec<String>),
    Untouched,
}

impl View for Plan {
    type V = StylePlan;

    open spec fn view(&self) -> StylePlan {
        match self {
            Plan::InlineOnly => StylePlan::InlineOnly,
            Plan::Rewrite(urls) => StylePlan::Rewrite(string_views(urls@)),
            Plan::Untouched => StylePlan::Untouched,
        }
    }
}

/// The plain value of an optional plan.
pub open spec fn plan_view(o: Option<Plan>) -> Option<StylePlan> {
    match o {
        Some(p) => Some(p@),
        None => None,
    }
}

/// The static URLs of a `styleUrls` array literal.
fn array_urls_of(elems: &Vec<Json>) -> (r: Option<Vec<String>>)
    ensures
        match r {
            Some(us) => array_urls(elems@, elems@.len()) == Some(string_views(us@)),
            None => array_urls(elems@, elems@.len()) is None,
        },
{
    let mut urls: Vec<String> = Vec::new();
    let mut i: usize = 0;
    while i < elems.len()
        invariant
            i <= elems@.len(),
            array_urls(elems@, i as nat) == Some(string_views(urls@)),
        decreases elems@.len() - i,
    {
        match get_static_string(&elems[i]) {
            Some(u) => {
                urls.push(u.clone());
                assert(string_views(urls@) =~= string_views(urls@).subrange(0, urls@.len() - 1).push(u@));
            },
            None => {
                proof {
                    lemma_array_urls_none(elems@, (i + 1) as nat, elems@.len());
                }
                return None;
            },
        }
        i = i + 1;
    }
    Some(urls)
}

/// Once a prefix of the array has a dynamic element, so does every longer one.
proof fn lemma_array_urls_none(elems: Seq<Json>, n: nat, m: nat)
    requires
        n <= m <= elems.len(),
        array_urls(elems, n) is None,
    ensures
        array_urls(elems, m) is None,
    decreases m - n,
{
    if n < m {
        lemma_array_urls_none(elems, n + 1, m);
    }
}

/// The value of a property (`null` when missing).
pub fn get_value(p: &Json) -> (r: &Json)
    ensures
        *r == value_of(*p),
{
    match get(p, "value") {
        Some(x) => x,
        None => &Json::Null,
    }
}

/// Decide the [`StylePlan`] for a metadata object's properties.
pub fn plan_styles_of(props: &Vec<Json>) -> (r: Plan)
    ensures
        r@ == plan_styles(props@),
{
    let mut urls: Vec<String> = Vec::new();
    let mut has_urls = false;
    let mut mergeable = true;
    let mut dynamic = false;
    let mut i: usize = 0;
    assert(string_views(urls@) =~= seq![]);
    while i < props.len()
        invariant
            i <= props@.len(),
            plan_scan(props@, i as nat) == (PlanAcc {
                urls: string_views(urls@),
                has_urls,
                mergeable,
                dynamic,
            }),
        decreases props@.len() - i,
    {
        let p = &props[i];
        let ghost acc0 = PlanAcc { urls: string_views(urls@), has_urls, mergeable, dynamic };
        assert(plan_scan(props@, (i + 1) as nat) == plan_step(acc0, props@[i as int]));
        if !dynamic && has_type(p, "Property") {
            match get_key_name(p) {
                Some(k) => {
                    if is(k, "styleUrl") {
                        has_urls = true;
                        match get_static_string(get_value(p)) {
                            Some(u) => {
                                let ghost old_urls = urls@;
                                urls.push(u.clone());
                                assert(string_views(urls@) =~= string_views(old_urls).push(u@));
                            },
                            None => {
                                dynamic = true;
                            },
                        }
                    } else if is(k, "styleUrls") {
                        has_urls = true;
                        let value = get_value(p);
                        match get_arr(value, "elements") {
                            Some(elems) => {
                                if has_type(value, "ArrayExpression") {
                                    match array_urls_of(elems) {
                                        Some(us) => {
                                            let ghost before = string_views(urls@);
                                            assert(us@.subrange(0, 0) =~= seq![]);
                                            assert(string_views(seq![]) =~= seq![]);
                                            let mut j: usize = 0;
                                            while j < us.len()
                                                invariant
                                                    j <= us@.len(),
                                                    string_views(urls@) == before + string_views(
                                                        us@.subrange(0, j as int),
                                                    ),
                                                decreases us@.len() - j,
                                            {
                                                let ghost old_urls = urls@;
                                                urls.push(us[j].clone());
                                                assert(string_views(us@.subrange(0, j + 1 as int))
                                                    =~= string_views(us@.subrange(0, j as int)).push(
                                                    us@[j as int]@,
                                                ));
                                                assert(string_views(urls@) =~= string_views(old_urls).push(
                                                    us@[j as int]@,
                                                ));
                                                assert(string_views(urls@) =~= before + string_views(
                                                    us@.subrange(0, j + 1 as int),
                                                ));
                                                j = j + 1;
                                            }
                                            assert(us@.subrange(0, us@.len() as int) =~= us@);
                                        },
                                        None => {
                                            dynamic = true;
                                        },
                                    }
                                } else {
                                    dynamic = true;
                                }
                            },
                            None => {
                                dynamic = true;
                            },
                        }
                    } else if is(k, "styles") {
                        let value = get_value(p);
                        mergeable = has_type(value, "ArrayExpression") || (has_type(value, "Literal")
                            && get_str(value, "value").is_some()) || has_type(
                            value,
                            "TemplateLiteral",
                        );
                    }
                },
                None => {},
            }
        }
        i = i + 1;
    }
    if dynamic {
        Plan::Untouched
    } else if !has_urls {
        Plan::InlineOnly
    } else if !mergeable {
        Plan::Untouched
    } else {
        Plan::Rewrite(urls)
    }
}

/// `require("<specifier>")`.
fn require_call(specifier: &[u8]) -> (r: Vec<u8>)
    ensures
        r@ == require_text(specifier@),
{
    let mut t: Vec<u8> = Vec::new();
    push_str(&mut t, "require(");
    push_js_string(&mut t, specifier);
    push_str(&mut t, ")");
    proof {
        assert(t@ =~= require_text(specifier@));
    }
    t
}

/// The source text of a node.
pub fn node_text(src: &Vec<u8>, j: &Json) -> (r: Vec<u8>)
    ensures
        r@ == text_of(src@, *j),
{
    let mut t: Vec<u8> = Vec::new();
    push_slice(&mut t, src.as_slice(), get_span(j));
    assert(t@ =~= text_of(src@, *j));
    t
}

impl ResourceTransform {
    /// Record a hoisted import.
    fn add_import(&mut self, var: &Vec<u8>, specifier: Vec<u8>)
        ensures
            final(self)@ == (ResourceView {
                imports: old(self)@.imports.push((var@, specifier@)),
                ..old(self)@
            }),
    {
        let ghost old_pending = self.pending_imports@;
        self.pending_imports.push((vstd::slice::slice_to_vec(var.as_slice()), specifier));
        assert(pair_views(self.pending_imports@) =~= pair_views(old_pending).push(
            (var@, specifier@),
        ));
    }

    /// The value a static `templateUrl` becomes (see [`template_value`]).
    fn template_value(&mut self, url: &String) -> (r: Vec<u8>)
        ensures
            (final(self)@, r@) == template_value(old(self)@, url@),
    {
        let norm = normalize_url(url.as_str());
        let norm_bytes = vstd::slice::slice_to_vec(norm.as_str().as_bytes());
        if self.use_import {
            let mut var: Vec<u8> = Vec::new();
            push_str(&mut var, RESOURCE_PREFIX);
            push_decimal(&mut var, self.counter);
            assert(var@ =~= enc(RESOURCE_PREFIX@) + decimal(self.counter as nat));
            if self.counter < usize::MAX {
                self.counter = self.counter + 1;
            }
            self.add_import(&var, norm_bytes);
            var
        } else {
            require_call(norm_bytes.as_slice())
        }
    }

    /// The expression a style URL becomes (see [`style_value`]).
    fn style_value(&mut self, url: &String) -> (r: Vec<u8>)
        ensures
            (final(self)@, r@) == style_value(old(self)@, url@),
    {
        let norm = normalize_url(url.as_str());
        let mut specifier = vstd::slice::slice_to_vec(norm.as_str().as_bytes());
        let ghost nb = specifier@;
        match &self.style_query {
            Some(q) => {
                let mut qm: Vec<u8> = Vec::new();
                qm.push(0x3f);
                assert(qm@ =~= seq![0x3fu8]);
                if bytes_contain(specifier.as_slice(), qm.as_slice()) {
                    specifier.push(0x26);
                    assert(specifier@ =~= nb + seq![0x26u8]);
                } else {
                    specifier.push(0x3f);
                    assert(specifier@ =~= nb + seq![0x3fu8]);
                }
                push_str(&mut specifier, q.as_str());
            },
            None => {},
        }
        assert(specifier@ == style_specifier(self@, url@));
        if self.use_import {
            let mut var: Vec<u8> = Vec::new();
            push_str(&mut var, self.style_prefix.as_str());
            push_decimal(&mut var, self.style_counter);
            push_str(&mut var, "__");
            assert(var@ =~= enc(self@.prefix) + decimal(self.style_counter as nat) + enc("__"@));
            if self.style_counter < usize::MAX {
                self.style_counter = self.style_counter + 1;
            }
            self.add_import(&var, specifier);
            var
        } else {
            require_call(specifier.as_slice())
        }
    }

    /// The style values of `urls`, in order.
    fn style_values(&mut self, urls: &Vec<String>) -> (r: Vec<Vec<u8>>)
        ensures
            (final(self)@, r@.map_values(|t: Vec<u8>| t@)) == style_values(
                old(self)@,
                string_views(urls@),
                urls@.len(),
            ),
    {
        let ghost uv = string_views(urls@);
        let mut texts: Vec<Vec<u8>> = Vec::new();
        let mut i: usize = 0;
        assert(texts@.map_values(|t: Vec<u8>| t@) =~= seq![]);
        while i < urls.len()
            invariant
                uv == string_views(urls@),
                i <= urls@.len(),
                (self@, texts@.map_values(|t: Vec<u8>| t@)) == style_values(
                    old(self)@,
                    uv,
                    i as nat,
                ),
            decreases urls@.len() - i,
        {
            let ghost old_texts = texts@;
            let t = self.style_value(&urls[i]);
            let ghost tv = t@;
            texts.push(t);
            assert(texts@.map_values(|t: Vec<u8>| t@) =~= old_texts.map_values(|t: Vec<u8>| t@).push(
                tv,
            ));
            i = i + 1;
        }
        texts
    }
}

/// The elements a merged inline `styles` value contributes.
fn push_inline_elements(out: &mut Vec<Vec<u8>>, src: &Vec<u8>, value: &Json)
    ensures
        final(out)@.map_values(|t: Vec<u8>| t@) == old(out)@.map_values(|t: Vec<u8>| t@)
            + inline_elements(src@, *value),
{
    let ghost start = old(out)@.map_values(|t: Vec<u8>| t@);
    if has_type(value, "ArrayExpression") {
        match get_arr(value, "elements") {
            Some(elems) => {
                let ghost all = elems@.map_values(|e: Json| text_of(src@, e));
                let mut i: usize = 0;
                while i < elems.len()
                    invariant
                        i <= elems@.len(),
                        all == elems@.map_values(|e: Json| text_of(src@, e)),
                        out@.map_values(|t: Vec<u8>| t@) == start + all.subrange(0, i as int),
                    decreases elems@.len() - i,
                {
                    let ghost before = out@;
                    out.push(node_text(src, &elems[i]));
                    assert(out@.map_values(|t: Vec<u8>| t@) =~= before.map_values(|t: Vec<u8>| t@).push(
                        all[i as int],
                    ));
                    assert(all.subrange(0, i + 1 as int) =~= all.subrange(0, i as int).push(all[i as int]));
                    i = i + 1;
                }
                assert(all.subrange(0, elems@.len() as int) =~= all);
            },
            None => {
                assert(start + seq![] =~= start);
            },
        }
    } else {
        let ghost before = out@;
        out.push(node_text(src, value));
        assert(out@.map_values(|t: Vec<u8>| t@) =~= before.map_values(|t: Vec<u8>| t@) + seq![
            text_of(src@, *value),
        ]);
    }
}

/// The plain values of a list of texts.
pub open spec fn text_views(v: Seq<Vec<u8>>) -> Seq<Seq<u8>> {
    v.map_values(|t: Vec<u8>| t@)
}

/// The plain value of an optional index.
pub open spec fn opt_nat(o: Option<usize>) -> Option<nat> {
    match o {
        Some(k) => Some(k as nat),
        None => None,
    }
}

/// `styles: [<elements>]`.
fn styles_prop(elements: &Vec<Vec<u8>>) -> (r: Vec<u8>)
    ensures
        r@ == styles_prop_text(text_views(elements@)),
{
    let mut t: Vec<u8> = Vec::new();
    push_str(&mut t, "styles: [");
    let body = join_bytes(elements, ", ".as_bytes());
    push_bytes(&mut t, body.as_slice());
    push_str(&mut t, "]");
    assert(t@ =~= styles_prop_text(text_views(elements@)));
    t
}

/// `{<properties>}`.
fn object_literal(props: &Vec<Vec<u8>>) -> (r: Vec<u8>)
    ensures
        r@ == object_text(text_views(props@)),
{
    let mut t: Vec<u8> = Vec::new();
    push_str(&mut t, "{");
    let body = join_bytes(props, ", ".as_bytes());
    push_bytes(&mut t, body.as_slice());
    push_str(&mut t, "}");
    assert(t@ =~= object_text(text_views(props@)));
    t
}

impl ResourceTransform {
    /// Rewrite one `@Component` metadata object (see [`process_metadata`]).
    fn process_metadata(&mut self, obj: &Json)
        ensures
            final(self)@ == process_metadata(old(self)@, *obj),
    {
        let empty: Vec<Json> = Vec::new();
        let props: &Vec<Json> = match get_arr(obj, "properties") {
            Some(ps) => ps,
            None => &empty,
        };
        assert(props@ == properties(*obj));
        let plan: Option<Plan> = if self.keep_styles {
            Some(plan_styles_of(props))
        } else {
            None
        };
        let ghost pv: Option<StylePlan> = plan_view(plan);
        assert(pv == (if old(self)@.keep_styles {
            Some(plan_styles(properties(*obj)))
        } else {
            None
        }));
        let url_texts: Vec<Vec<u8>> = match &plan {
            Some(Plan::Rewrite(urls)) => self.style_values(urls),
            _ => Vec::new(),
        };
        proof {
            assert(text_views(Seq::<Vec<u8>>::empty()) =~= seq![]);
        }
        let ghost v1 = self@;
        let mut texts: Vec<Vec<u8>> = Vec::new();
        let mut slot: Option<usize> = None;
        let mut inline: Vec<Vec<u8>> = Vec::new();
        let mut touched = false;
        let ghost acc0 = MetaAcc { v: v1, texts: seq![], slot: None, inline: seq![], touched: false };
        assert(text_views(texts@) =~= seq![]);
        let mut i: usize = 0;
        while i < props.len()
            invariant
                i <= props@.len(),
                pv == plan_view(plan),
                meta_scan(acc0, pv, props@, i as nat) == (MetaAcc {
                    v: self@,
                    texts: text_views(texts@),
                    slot: opt_nat(slot),
                    inline: text_views(inline@),
                    touched,
                }),
                slot matches Some(k) ==> k <= texts@.len(),
            decreases props@.len() - i,
        {
            let p = &props[i];
            let ghost acc = MetaAcc {
                v: self@,
                texts: text_views(texts@),
                slot: opt_nat(slot),
                inline: text_views(inline@),
                touched,
            };
            assert(meta_scan(acc0, pv, props@, (i + 1) as nat) == meta_step(acc, pv, props@[i as int]));
            let ghost old_texts = texts@;
            if !has_type(p, "Property") {
                texts.push(node_text(&self.source, p));
                assert(text_views(texts@) =~= text_views(old_texts).push(text_of(self@.src, *p)));
            } else {
                match get_key_name(p) {
                    Some(k) => {
                        if is(k, "templateUrl") {
                            match get_static_string(get_value(p)) {
                                Some(url) => {
                                    let t = self.template_value(url);
                                    let mut pt: Vec<u8> = Vec::new();
                                    if get_flag(p, "computed") {
                                        push_str(&mut pt, "[template]: ");
                                    } else {
                                        push_str(&mut pt, "template: ");
                                    }
                                    push_bytes(&mut pt, t.as_slice());
                                    assert(pt@ =~= template_prop_text(*p, t@));
                                    texts.push(pt);
                                    assert(text_views(texts@) =~= text_views(old_texts).push(
                                        template_prop_text(*p, t@),
                                    ));
                                    touched = true;
                                },
                                None => {
                                    texts.push(node_text(&self.source, p));
                                    assert(text_views(texts@) =~= text_views(old_texts).push(
                                        text_of(self@.src, *p),
                                    ));
                                },
                            }
                        } else if is(k, "moduleId") {
                            touched = true;
                        } else if is(k, "styleUrls") || is(k, "styleUrl") || is(k, "styles") {
                            match &plan {
                                None => {
                                    touched = true;
                                },
                                Some(Plan::Rewrite(_)) => {
                                    if slot.is_none() {
                                        slot = Some(texts.len());
                                    }
                                    if is(k, "styles") {
                                        push_inline_elements(&mut inline, &self.source, get_value(p));
                                    }
                                    touched = true;
                                },
                                Some(_) => {
                                    texts.push(node_text(&self.source, p));
                                    assert(text_views(texts@) =~= text_views(old_texts).push(
                                        text_of(self@.src, *p),
                                    ));
                                },
                            }
                        } else {
                            texts.push(node_text(&self.source, p));
                            assert(text_views(texts@) =~= text_views(old_texts).push(
                                text_of(self@.src, *p),
                            ));
                        }
                    },
                    None => {
                        texts.push(node_text(&self.source, p));
                        assert(text_views(texts@) =~= text_views(old_texts).push(
                            text_of(self@.src, *p),
                        ));
                    },
                }
            }
            i = i + 1;
        }
        let ghost acc_end = MetaAcc {
            v: self@,
            texts: text_views(texts@),
            slot: opt_nat(slot),
            inline: text_views(inline@),
            touched,
        };
        match slot {
            Some(k) => {
                let mut elements = inline;
                let mut more = url_texts;
                let ghost ev = elements@;
                let ghost mv = more@;
                elements.append(&mut more);
                assert(text_views(elements@) =~= text_views(ev) + text_views(mv));
                let st = styles_prop(&elements);
                let ghost old_texts = texts@;
                texts.insert(k, st);
                assert(text_views(texts@) =~= text_views(old_texts).insert(k as int, st@));
            },
            None => {},
        }
        if touched {
            self.changed = true;
            match get_span(obj) {
                Some((s, e)) => {
                    let text = object_literal(&texts);
                    let ghost old_edits = self.edits@;
                    self.edits.push(Edit { start: s, end: e, text, origin: None });
                    assert(crate::text::edit_views(self.edits@) =~= crate::text::edit_views(
                        old_edits,
                    ).push(EditV { start: s as nat, end: e as nat, text: text@, origin: None }));
                },
                None => {},
            }
        }
    }
}

/// The local name of an import specifier.
pub open spec fn local_name(sp: Json) -> Option<Seq<char>> {
    match field(sp, "local"@) {
        Some(l) => str_field(l, "name"@),
        None => None,
    }
}

/// The name an `@angular/core` import specifier contributes: the local of
/// `Component` (named, possibly aliased), or of a namespace import.
pub open spec fn selected_name(namespace: bool, sp: Json) -> Option<Seq<char>> {
    if namespace {
        if is_type(sp, "ImportNamespaceSpecifier"@) {
            local_name(sp)
        } else {
            None
        }
    } else if is_type(sp, "ImportSpecifier"@) && match field(sp, "imported"@) {
        Some(i) => export_name(i) == Some("Component"@),
        None => false,
    } {
        local_name(sp)
    } else {
        None
    }
}

/// The specifiers of an `@angular/core` import (none for other statements).
pub open spec fn core_specifiers(stmt: Json) -> Seq<Json> {
    if import_source(stmt) == Some(ANGULAR_CORE@) {
        match as_arr(field(stmt, "specifiers"@)) {
            Some(sp) => sp,
            None => seq![],
        }
    } else {
        seq![]
    }
}

/// The names selected from `specs[..n]`.
pub open spec fn names_in(specs: Seq<Json>, namespace: bool, n: nat) -> Seq<Seq<char>>
    decreases n,
{
    if n == 0 || n > specs.len() {
        seq![]
    } else {
        let prev = names_in(specs, namespace, (n - 1) as nat);
        match selected_name(namespace, specs[n - 1]) {
            Some(name) => prev.push(name),
            None => prev,
        }
    }
}

/// The names selected from the `@angular/core` imports among `body[..n]`.
pub open spec fn core_names(body: Seq<Json>, namespace: bool, n: nat) -> Seq<Seq<char>>
    decreases n,
{
    if n == 0 || n > body.len() {
        seq![]
    } else {
        let sp = core_specifiers(body[n - 1]);
        core_names(body, namespace, (n - 1) as nat) + names_in(sp, namespace, sp.len())
    }
}

/// The statements of a program.
pub open spec fn body_of(program: Json) -> Seq<Json> {
    match as_arr(field(program, "body"@)) {
        Some(b) => b,
        None => seq![],
    }
}

/// The pass state after reading a program's `@angular/core` imports.
pub open spec fn enter_program(v: ResourceView, program: Json) -> ResourceView {
    let body = body_of(program);
    ResourceView {
        locals: v.locals + core_names(body, false, body.len()),
        namespaces: v.namespaces + core_names(body, true, body.len()),
        ..v
    }
}

/// The pass state after reading a program's `@angular/core` imports and
/// rewriting every `@Component` it holds.
pub open spec fn resource_pass(v: ResourceView, program: Json) -> ResourceView {
    crate::walk::run::<ResourceTransform>(enter_program(v, program), crate::walk::events(program))
}

/// `import <var> from "<specifier>";` for each recorded import, in order.
pub open spec fn imports_text(imports: Seq<(Seq<u8>, Seq<u8>)>) -> Seq<u8>
    decreases imports.len(),
{
    if imports.len() == 0 {
        seq![]
    } else {
        let (var, specifier) = imports.last();
        imports_text(imports.drop_last()) + enc("import "@) + var + enc(" from "@) + js_string(
            specifier,
        ) + enc(";"@)
    }
}

/// The name a specifier contributes (see [`selected_name`]).
fn get_selected_name<'a>(namespace: bool, sp: &'a Json) -> (r: Option<&'a String>)
    ensures
        match r {
            Some(n) => selected_name(namespace, *sp) == Some(n@),
            None => selected_name(namespace, *sp) is None,
        },
{
    let local = match get(sp, "local") {
        Some(l) => get_str(l, "name"),
        None => None,
    };
    if namespace {
        if has_type(sp, "ImportNamespaceSpecifier") {
            local
        } else {
            None
        }
    } else {
        let is_component = match get(sp, "imported") {
            Some(i) => match get_export_name(i) {
                Some(n) => is(n, "Component"),
                None => false,
            },
            None => false,
        };
        if has_type(sp, "ImportSpecifier") && is_component {
            local
        } else {
            None
        }
    }
}

/// Append the names selected from the `@angular/core` imports of `body`.
fn push_core_names(out: &mut Vec<String>, body: &Vec<Json>, namespace: bool)
    ensures
        string_views(final(out)@) == string_views(old(out)@) + core_names(
            body@,
            namespace,
            body@.len(),
        ),
{
    let ghost start = string_views(old(out)@);
    let mut i: usize = 0;
    assert(start + seq![] =~= start);
    while i < body.len()
        invariant
            i <= body@.len(),
            string_views(out@) == start + core_names(body@, namespace, i as nat),
        decreases body@.len() - i,
    {
        let ghost mid = string_views(out@);
        let stmt = &body[i];
        let mut is_core = false;
        match get_import_source(stmt) {
            Some(src) => {
                is_core = is(src, ANGULAR_CORE);
            },
            None => {},
        }
        let empty: Vec<Json> = Vec::new();
        let specs: &Vec<Json> = if is_core {
            match get_arr(stmt, "specifiers") {
                Some(sp) => sp,
                None => &empty,
            }
        } else {
            &empty
        };
        assert(specs@ == core_specifiers(*stmt));
        let mut j: usize = 0;
        assert(mid + seq![] =~= mid);
        while j < specs.len()
            invariant
                j <= specs@.len(),
                string_views(out@) == mid + names_in(specs@, namespace, j as nat),
            decreases specs@.len() - j,
        {
            match get_selected_name(namespace, &specs[j]) {
                Some(n) => {
                    let ghost before = out@;
                    out.push(n.clone());
                    assert(string_views(out@) =~= string_views(before).push(n@));
                    assert(mid + names_in(specs@, namespace, (j + 1) as nat) =~= (mid + names_in(
                        specs@,
                        namespace,
                        j as nat,
                    )).push(n@));
                },
                None => {},
            }
            j = j + 1;
        }
        assert(start + core_names(body@, namespace, (i + 1) as nat) =~= mid + names_in(
            specs@,
            namespace,
            specs@.len(),
        ));
        i = i + 1;
    }
}

impl ResourceTransform {
    /// Read the program's `@angular/core` imports (see [`enter_program`]).
    pub fn enter_program(&mut self, program: &Json)
        ensures
            final(self)@ == enter_program(old(self)@, *program),
    {
        let empty: Vec<Json> = Vec::new();
        let body: &Vec<Json> = match get_arr(program, "body") {
            Some(b) => b,
            None => &empty,
        };
        push_core_names(&mut self.component_locals, body, false);
        push_core_names(&mut self.component_namespaces, body, true);
    }

    /// Whether a decorator callee names `@angular/core`'s `Component`.
    fn is_component_callee(&self, callee: &Json) -> (r: bool)
        ensures
            r == is_component_callee(self@, *callee),
    {
        if has_type(callee, "Identifier") {
            match get_str(callee, "name") {
                Some(n) => contains_string(&self.component_locals, n),
                None => false,
            }
        } else if has_type(callee, "MemberExpression") && !get_flag(callee, "computed") {
            match (get(callee, "property"), get(callee, "object")) {
                (Some(prop), Some(obj)) => {
                    let prop_ok = has_type(prop, "Identifier") && match get_str(prop, "name") {
                        Some(n) => is(n, "Component"),
                        None => false,
                    };
                    prop_ok && has_type(obj, "Identifier") && match get_str(obj, "name") {
                        Some(n) => contains_string(&self.component_namespaces, n),
                        None => false,
                    }
                },
                _ => false,
            }
        } else {
            false
        }
    }

    /// The metadata object of `@Component({...})`, when `dec` is one.
    fn component_metadata<'a>(&self, dec: &'a Json) -> (r: Option<&'a Json>)
        ensures
            match r {
                Some(o) => component_metadata(self@, *dec) == Some(*o),
                None => component_metadata(self@, *dec) is None,
            },
    {
        match get(dec, "expression") {
            Some(call) => {
                if has_type(call, "CallExpression") {
                    match (get(call, "callee"), get_arr(call, "arguments")) {
                        (Some(callee), Some(args)) => {
                            if self.is_component_callee(callee) && args.len() > 0 && has_type(
                                &args[0],
                                "ObjectExpression",
                            ) {
                                Some(&args[0])
                            } else {
                                None
                            }
                        },
                        _ => None,
                    }
                } else {
                    None
                }
            },
            None => None,
        }
    }

    /// Rewrite the `@Component` metadata of a class.
    fn process_class(&mut self, class: &Json)
        ensures
            final(self)@ == class_scan(old(self)@, decorators(*class), decorators(*class).len()),
    {
        let empty: Vec<Json> = Vec::new();
        let decs: &Vec<Json> = match get_arr(class, "decorators") {
            Some(d) => d,
            None => &empty,
        };
        assert(decs@ == decorators(*class));
        let ghost v0 = self@;
        let mut i: usize = 0;
        while i < decs.len()
            invariant
                i <= decs@.len(),
                self@ == class_scan(v0, decs@, i as nat),
            decreases decs@.len() - i,
        {
            match self.component_metadata(&decs[i]) {
                Some(obj) => self.process_metadata(obj),
                None => {},
            }
            i = i + 1;
        }
    }

    /// `import <var> from "<specifier>";` for each recorded import.
    pub fn import_declarations(&self) -> (r: Vec<u8>)
        ensures
            r@ == imports_text(self@.imports),
    {
        let ghost iv = pair_views(self.pending_imports@);
        let mut out: Vec<u8> = Vec::new();
        let mut i: usize = 0;
        while i < self.pending_imports.len()
            invariant
                iv == pair_views(self.pending_imports@),
                i <= iv.len(),
                out@ == imports_text(iv.subrange(0, i as int)),
            decreases iv.len() - i,
        {
            let (var, specifier) = &self.pending_imports[i];
            push_str(&mut out, "import ");
            push_bytes(&mut out, var.as_slice());
            push_str(&mut out, " from ");
            push_js_string(&mut out, specifier.as_slice());
            push_str(&mut out, ";");
            assert(iv.subrange(0, i + 1 as int).drop_last() =~= iv.subrange(0, i as int));
            i = i + 1;
        }
        assert(iv.subrange(0, iv.len() as int) =~= iv);
        out
    }

    /// The metadata rewrites, in source order.
    pub fn edits(&self) -> (r: &Vec<Edit>)
        ensures
            crate::text::edit_views(r@) == self@.edits,
    {
        &self.edits
    }
}

/// Whether `v` holds a string equal to `s`.
pub fn contains_string(v: &Vec<String>, s: &String) -> (r: bool)
    ensures
        r == string_views(v@).contains(s@),
{
    let mut i: usize = 0;
    while i < v.len()
        invariant
            i <= v@.len(),
            forall|k: int| 0 <= k < i ==> v@[k]@ != s@,
        decreases v@.len() - i,
    {
        if v[i] == *s {
            assert(string_views(v@)[i as int] == s@);
            return true;
        }
        i = i + 1;
    }
    assert forall|k: int| 0 <= k < string_views(v@).len() implies string_views(v@)[k] != s@ by {
        assert(string_views(v@)[k] == v@[k]@);
    }
    false
}

impl Visitor for ResourceTransform {
    open spec fn step(s: ResourceView, e: Event) -> ResourceView {
        resource_step(s, e)
    }

    fn visit(&mut self, exit: bool, node: &Json) {
        if !exit && (has_type(node, "ClassDeclaration") || has_type(node, "ClassExpression")) && (
        self.component_locals.len() > 0 || self.component_namespaces.len() > 0) {
            self.process_class(node);
        }
    }
}

/// The query parameter as plain text.
pub open spec fn query_view(q: Option<String>) -> Option<Seq<char>> {
    match q {
        Some(s) => Some(s@),
        None => None,
    }
}

/// There is one least escalation of the style prefix that is free in `src`.
pub proof fn lemma_least_free_prefix_unique(src: Seq<u8>, p1: Seq<char>, p2: Seq<char>)
    requires
        least_free_prefix(src, p1),
        least_free_prefix(src, p2),
    ensures
        p1 == p2,
{
    let k1 = choose|k: nat|
        {
            &&& p1 == escalated_prefix(k)
            &&& !occurs(src, vstd::utf8::encode_utf8(p1))
            &&& forall|j: nat|
                j < k ==> occurs(src, vstd::utf8::encode_utf8(#[trigger] escalated_prefix(j)))
        };
    let k2 = choose|k: nat|
        {
            &&& p2 == escalated_prefix(k)
            &&& !occurs(src, vstd::utf8::encode_utf8(p2))
            &&& forall|j: nat|
                j < k ==> occurs(src, vstd::utf8::encode_utf8(#[trigger] escalated_prefix(j)))
        };
    if k1 < k2 {
        assert(occurs(src, vstd::utf8::encode_utf8(escalated_prefix(k1))));
    } else if k2 < k1 {
        assert(occurs(src, vstd::utf8::encode_utf8(escalated_prefix(k2))));
    }
}

/// The state the resource pass starts from on a module with text `src`.
pub open spec fn resource_start(
    use_import: bool,
    keep_styles: bool,
    query: Option<Seq<char>>,
    src: Seq<u8>,
) -> ResourceView {
    ResourceView {
        use_import,
        keep_styles,
        query,
        locals: seq![],
        namespaces: seq![],
        imports: seq![],
        counter: 0,
        style_counter: 0,
        prefix: choose|p: Seq<char>| least_free_prefix(src, p),
        changed: false,
        src,
        edits: seq![],
    }
}

/// The rewrites the resource pass makes to a module: each component's
/// metadata rewrite, then the hoisted imports inserted at the top.
pub open spec fn resource_rewrites(v: ResourceView, program: Json) -> Seq<EditV> {
    let w = resource_pass(v, program);
    if w.imports.len() == 0 {
        w.edits
    } else {
        let at = crate::estree::hoist_point(body_of(program), w.src.len());
        w.edits.push(EditV { start: at, end: at, text: imports_text(w.imports), origin: None })
    }
}

/// The resource pass over a parsed module (`program`, the tree of `source`):
/// the rewrites it makes (see [`resource_rewrites`]).
pub fn resource_edits(
    source: &str,
    program: &Json,
    use_import: bool,
    keep_styles: bool,
    style_query: Option<String>,
) -> (r: Vec<Edit>)
    ensures
        crate::text::edit_views(r@) == resource_rewrites(
            resource_start(
                use_import,
                keep_styles,
                query_view(style_query),
                vstd::utf8::encode_utf8(source@),
            ),
            *program,
        ),
{
    let ghost q = query_view(style_query);
    let mut t = ResourceTransform::new(use_import, keep_styles, style_query, source);
    proof {
        let start = resource_start(use_import, keep_styles, q, t@.src);
        lemma_least_free_prefix_unique(t@.src, t@.prefix, start.prefix);
        assert(t@.locals =~= start.locals);
        assert(t@.namespaces =~= start.namespaces);
        assert(t@.imports =~= start.imports);
        assert(t@.edits =~= start.edits);
        assert(t@ == start);
    }
    t.enter_program(program);
    crate::walk::walk(&mut t, program);
    let len = t.source.len();
    let imports = t.import_declarations();
    let has_imports = t.pending_imports.len() > 0;
    let mut edits = t.edits;
    if has_imports {
        let empty: Vec<Json> = Vec::new();
        let body: &Vec<Json> = match get_arr(program, "body") {
            Some(b) => b,
            None => &empty,
        };
        assert(body@ == body_of(*program));
        let at = crate::estree::get_hoist_point(body, len);
        let text = imports;
        let ghost before = crate::text::edit_views(edits@);
        let e = Edit { start: at, end: at, text, origin: None };
        edits.push(e);
        assert(crate::text::edit_views(edits@) =~= before.push(e@));
    }
    edits
}

} // verus!
