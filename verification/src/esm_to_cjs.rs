//! ESM → CommonJS, as TypeScript emits it for `module: "commonjs"` with
//! `esModuleInterop`:
//!
//! - `Object.defineProperty(exports, "__esModule", { value: true });` and an
//!   `exports.a = exports.b = void 0;` header (the caller adds `"use strict";`);
//! - `import { a, b as c } from "./m"` → `const m_1 = require("./m");`, with
//!   the references `a` → `m_1.a`, `c` → `m_1.b`, calls as `(0, m_1.a)()`;
//! - default imports use `__importDefault`, namespace (or mixed default and
//!   named) imports `__importStar`; side-effect imports become `require("./m");`;
//! - `export <declaration>` keeps the declaration and adds `exports.x = x;`;
//!   the references to an exported `const`/`let`/`var` go through `exports.x`;
//! - `export { x as y }` → `exports.y = x;` (a getter through the namespace
//!   for an imported binding), and writes to an exported module-scope
//!   `let`/`var` are mirrored into `exports.y`;
//! - `export default e` → `exports.default = e;` (an anonymous default
//!   function or class is named `default_N`);
//! - `export { a } from "./m"` → lazy `Object.defineProperty` getters;
//!   `export * from "./m"` → `__exportStar(require("./m"), exports);`
//! - dynamic `import(x)` → `Promise.resolve().then(() => __importStar(require(x)))`.
//!
//! The interop helpers used are returned as a text prelude.

use vstd::prelude::*;

use crate::estree::{export_name, flag, get_export_name, get_flag, get_span, hoist_point, is, key_name};
use crate::jit_transform::{append_edits, imported_of, local_of, specifiers_of};
use crate::json::{as_arr, field, get, get_arr, get_nat, get_str, has_type, is_type, start_of, str_field, Json};
use crate::resources::{contains_string, enc, node_text, string_views, text_of, uspan};
use crate::syntax::Symbol;
use crate::text::{decimal, js_string, push_bytes, push_decimal, push_js_string, push_str, Edit, EditV};
use crate::walk::{Event, Visitor};

verus! {

/// TypeScript's `__importDefault` helper.
pub const IMPORT_DEFAULT: &'static str = "var __importDefault = (this && this.__importDefault) || function (mod) {\n    return (mod && mod.__esModule) ? mod : { \"default\": mod };\n};\n";

/// TypeScript's `__createBinding` helper, with a configurable, settable
/// getter (so that `jest.spyOn` can redefine a namespace member); both star
/// helpers use it.
pub const CREATE_BINDING: &'static str = "var __createBinding = (this && this.__createBinding) || (Object.create ? (function(o, m, k, k2) {\n    if (k2 === undefined) k2 = k;\n    var desc = Object.getOwnPropertyDescriptor(m, k);\n    if (!desc || (\"get\" in desc ? !m.__esModule : desc.writable || desc.configurable)) {\n      desc = { enumerable: true, configurable: true, get: function() { return m[k]; }, set: function(v) { m[k] = v; } };\n    }\n    Object.defineProperty(o, k2, desc);\n}) : (function(o, m, k, k2) {\n    if (k2 === undefined) k2 = k;\n    o[k2] = m[k];\n}));\n";

/// TypeScript's `__setModuleDefault` and `__importStar` helpers.
pub const IMPORT_STAR: &'static str = "var __setModuleDefault = (this && this.__setModuleDefault) || (Object.create ? (function(o, v) {\n    Object.defineProperty(o, \"default\", { enumerable: true, value: v });\n}) : function(o, v) {\n    o[\"default\"] = v;\n});\nvar __importStar = (this && this.__importStar) || (function () {\n    var ownKeys = function(o) {\n        ownKeys = Object.getOwnPropertyNames || function (o) {\n            var ar = [];\n            for (var k in o) if (Object.prototype.hasOwnProperty.call(o, k)) ar[ar.length] = k;\n            return ar;\n        };\n        return ownKeys(o);\n    };\n    return function (mod) {\n        if (mod && mod.__esModule) return mod;\n        var result = {};\n        if (mod != null) for (var k = ownKeys(mod), i = 0; i < k.length; i++) if (k[i] !== \"default\") __createBinding(result, mod, k[i]);\n        __setModuleDefault(result, mod);\n        return result;\n    };\n})();\n";

/// TypeScript's `__exportStar` helper.
pub const EXPORT_STAR: &'static str = "var __exportStar = (this && this.__exportStar) || function(m, exports) {\n    for (var p in m) if (p !== \"default\" && !Object.prototype.hasOwnProperty.call(exports, p)) __createBinding(exports, m, p);\n};\n";

/// Result of the ESM→CJS rewrite.
pub struct CjsResult {
    /// Interop helper text the caller prepends after `"use strict";`.
    pub prelude: String,
    /// Whether the module had ES module syntax and was converted (then the
    /// `__esModule` marker was emitted and the caller adds `"use strict";`).
    /// A module that is already CommonJS is left as it is.
    pub converted: bool,
}

/// Which interop helpers the output uses.
pub struct Needs {
    pub import_default: bool,
    pub import_star: bool,
    pub export_star: bool,
}

/// The helper prelude for `needs`: `__importDefault`, then `__createBinding`
/// (for either star helper), `__importStar`, `__exportStar`.
pub open spec fn prelude_text(needs: Needs) -> Seq<char> {
    (if needs.import_default {
        IMPORT_DEFAULT@
    } else {
        seq![]
    }) + (if needs.import_star || needs.export_star {
        CREATE_BINDING@
    } else {
        seq![]
    }) + (if needs.import_star {
        IMPORT_STAR@
    } else {
        seq![]
    }) + (if needs.export_star {
        EXPORT_STAR@
    } else {
        seq![]
    })
}

/// See [`prelude_text`].
pub fn prelude_of(needs: &Needs) -> (r: String)
    ensures
        r@ == prelude_text(*needs),
{
    let mut out = String::new();
    if needs.import_default {
        out.append(IMPORT_DEFAULT);
    }
    let ghost a = out@;
    if needs.import_star || needs.export_star {
        out.append(CREATE_BINDING);
    }
    let ghost b = out@;
    if needs.import_star {
        out.append(IMPORT_STAR);
    }
    let ghost c = out@;
    if needs.export_star {
        out.append(EXPORT_STAR);
    }
    proof {
        let p1: Seq<char> = if needs.import_default {
            IMPORT_DEFAULT@
        } else {
            seq![]
        };
        let p2: Seq<char> = if needs.import_star || needs.export_star {
            CREATE_BINDING@
        } else {
            seq![]
        };
        let p3: Seq<char> = if needs.import_star {
            IMPORT_STAR@
        } else {
            seq![]
        };
        let p4: Seq<char> = if needs.export_star {
            EXPORT_STAR@
        } else {
            seq![]
        };
        assert(a =~= p1);
        assert(b =~= p1 + p2);
        assert(c =~= p1 + p2 + p3);
        assert(out@ =~= p1 + p2 + p3 + p4);
    }
    out
}

/// The position just after the last `/` among `s[..n]` (zero when there is
/// none).
pub open spec fn slash_end(s: Seq<char>, n: nat) -> nat
    decreases n,
{
    if n == 0 || n > s.len() {
        0
    } else if s[n - 1] == '/' {
        n
    } else {
        slash_end(s, (n - 1) as nat)
    }
}

/// The text after the last `/` of a module specifier.
pub open spec fn last_segment(s: Seq<char>) -> Seq<char> {
    s.subrange(slash_end(s, s.len()) as int, s.len() as int)
}

/// `s` without the suffix `suf`, when it ends with it.
pub open spec fn strip_suffix(s: Seq<char>, suf: Seq<char>) -> Option<Seq<char>> {
    if s.len() >= suf.len() && s.subrange(s.len() - suf.len(), s.len() as int) == suf {
        Some(s.subrange(0, s.len() - suf.len()))
    } else {
        None
    }
}

/// Whether a character is kept in a module variable name.
pub open spec fn is_ident_char(c: char) -> bool {
    ('a' <= c && c <= 'z') || ('A' <= c && c <= 'Z') || ('0' <= c && c <= '9') || c == '_' || c
        == '$'
}

/// A character of a module variable name: kept, or `_`.
pub open spec fn ident_char(c: char) -> char {
    if is_ident_char(c) {
        c
    } else {
        '_'
    }
}

/// The identifier a module specifier's base name gives: its last segment
/// without `.js`/`.ts`, every other character than an ASCII letter, digit,
/// `_` or `$` replaced by `_`, and `_` in front when it is empty or starts
/// with a digit.
pub open spec fn module_ident(source: Seq<char>) -> Seq<char> {
    let base = last_segment(source);
    let base2 = match strip_suffix(base, ".js"@) {
        Some(b) => b,
        None => match strip_suffix(base, ".ts"@) {
            Some(b) => b,
            None => base,
        },
    };
    let ident = base2.map_values(|c: char| ident_char(c));
    if ident.len() == 0 || ('0' <= ident[0] && ident[0] <= '9') {
        seq!['_'] + ident
    } else {
        ident
    }
}

/// The count recorded for `name` (the last entry for it), zero when none.
pub open spec fn used_count(used: Seq<(Seq<char>, nat)>, name: Seq<char>) -> nat
    decreases used.len(),
{
    if used.len() == 0 {
        0
    } else if used.last().0 == name {
        used.last().1
    } else {
        used_count(used.drop_last(), name)
    }
}

/// The decimal digits of `n`, as characters.
pub open spec fn decimal_chars(n: nat) -> Seq<char> {
    decimal(n).map_values(|b: u8| b as char)
}

/// A fresh module variable for `source`: `<ident>_<n>`, `n` counting the
/// uses of `<ident>` so far; and the counts after this use.
pub open spec fn module_var(source: Seq<char>, used: Seq<(Seq<char>, nat)>) -> (Seq<char>, Seq<(Seq<char>, nat)>) {
    let ident = module_ident(source);
    let n = crate::resources::bump(used_count(used, ident));
    (ident + "_"@ + decimal_chars(n), used.push((ident, n)))
}

/// The decimal digits of `n` read back give `n`.
pub proof fn lemma_decimal_value(n: nat)
    ensures
        crate::json::digits_value(decimal(n)) == n,
    decreases n,
{
    if n >= 10 {
        lemma_decimal_value(n / 10);
        let d = decimal(n);
        assert(d.drop_last() =~= decimal(n / 10));
        assert(d.last() == (48 + n % 10) as u8);
        assert(d.last() - 48 == n % 10);
        assert((n / 10) * 10 + n % 10 == n) by (nonlinear_arith);
        assert(crate::json::digits_value(d) == crate::json::digits_value(d.drop_last()) * 10 + (d.last()
            - 48) as nat);
    } else {
        let d = decimal(n);
        assert(d.drop_last() =~= Seq::<u8>::empty());
        assert(d.last() - 48 == n);
        assert(crate::json::digits_value(d) == crate::json::digits_value(d.drop_last()) * 10 + (d.last()
            - 48) as nat);
    }
}

/// Different numbers have different decimal digits.
proof fn lemma_decimal_chars_injective(a: nat, b: nat)
    requires
        decimal_chars(a) == decimal_chars(b),
    ensures
        a == b,
{
    lemma_decimal_digits(a);
    lemma_decimal_digits(b);
    let da = decimal(a);
    let db = decimal(b);
    assert(decimal_chars(a).len() == da.len());
    assert(decimal_chars(b).len() == db.len());
    assert(da.len() == db.len());
    assert forall|i: int| 0 <= i < da.len() implies da[i] == db[i] by {
        assert(decimal_chars(a)[i] == da[i] as char);
        assert(decimal_chars(b)[i] == db[i] as char);
        assert(decimal_chars(a)[i] == decimal_chars(b)[i]);
        assert((da[i] as char) as int == da[i] as int);
        assert((db[i] as char) as int == db[i] as int);
    }
    assert(da =~= db);
    lemma_decimal_value(a);
    lemma_decimal_value(b);
}

/// Module variables are fresh: two variables made one after the other for
/// the same module specifier differ (while the use count has not reached
/// `usize::MAX`, where it stays).
pub proof fn lemma_module_var_fresh(source: Seq<char>, used: Seq<(Seq<char>, nat)>)
    requires
        used_count(used, module_ident(source)) + 1 < usize::MAX,
    ensures
        module_var(source, used).0 != module_var(source, module_var(source, used).1).0,
{
    let ident = module_ident(source);
    let (first, used2) = module_var(source, used);
    let second = module_var(source, used2).0;
    let n1 = crate::resources::bump(used_count(used, ident));
    let n2 = crate::resources::bump(used_count(used2, ident));
    assert(used2.last() == (ident, n1));
    assert(n2 == n1 + 1);
    let head = ident + "_"@;
    if first == second {
        assert(first == head + decimal_chars(n1));
        assert(second == head + decimal_chars(n2));
        assert(first.subrange(head.len() as int, first.len() as int) =~= decimal_chars(n1));
        assert(second.subrange(head.len() as int, second.len() as int) =~= decimal_chars(n2));
        lemma_decimal_chars_injective(n1, n2);
    }
}

/// Whether `s` is a JavaScript identifier of ASCII letters, digits, `_`
/// and `$` that does not start with a digit.
pub open spec fn is_ascii_identifier(s: Seq<char>) -> bool {
    &&& s.len() > 0
    &&& !('0' <= s[0] && s[0] <= '9')
    &&& forall|i: int| 0 <= i < s.len() ==> is_ident_char(#[trigger] s[i])
}

/// The decimal digits are digit characters.
proof fn lemma_decimal_chars_digits(n: nat)
    ensures
        decimal_chars(n).len() > 0,
        forall|i: int| 0 <= i < decimal_chars(n).len() ==> '0' <= #[trigger] decimal_chars(n)[i] <= '9',
{
    lemma_decimal_digits(n);
    assert forall|i: int| 0 <= i < decimal_chars(n).len() implies '0' <= #[trigger] decimal_chars(n)[i] <= '9' by {
        assert(decimal_chars(n)[i] == decimal(n)[i] as char);
    }
}

/// A module variable is an identifier: the specifier's identifier, which
/// does not start with a digit, then `_` and a use count of at least 1 (so
/// it is never a reserved word).
pub proof fn lemma_module_var_identifier(source: Seq<char>, used: Seq<(Seq<char>, nat)>)
    ensures
        is_ascii_identifier(module_ident(source)),
        module_var(source, used).0 == module_ident(source) + "_"@ + decimal_chars(
            crate::resources::bump(used_count(used, module_ident(source))),
        ),
        crate::resources::bump(used_count(used, module_ident(source))) >= 1,
        is_ascii_identifier(module_var(source, used).0),
{
    reveal_strlit("_");
    let ident = module_ident(source);
    let base = last_segment(source);
    let base2 = match strip_suffix(base, ".js"@) {
        Some(b) => b,
        None => match strip_suffix(base, ".ts"@) {
            Some(b) => b,
            None => base,
        },
    };
    let mapped = base2.map_values(|c: char| ident_char(c));
    assert forall|i: int| 0 <= i < mapped.len() implies is_ident_char(#[trigger] mapped[i]) by {}
    if mapped.len() == 0 || ('0' <= mapped[0] && mapped[0] <= '9') {
        assert(ident == seq!['_'] + mapped);
        assert forall|i: int| 0 <= i < ident.len() implies is_ident_char(#[trigger] ident[i]) by {
            if i > 0 {
                assert(ident[i] == mapped[i - 1]);
            }
        }
    }
    let n = crate::resources::bump(used_count(used, ident));
    let name = ident + "_"@ + decimal_chars(n);
    lemma_decimal_chars_digits(n);
    assert forall|i: int| 0 <= i < name.len() implies is_ident_char(#[trigger] name[i]) by {
        if i < ident.len() {
            assert(name[i] == ident[i]);
        } else if i == ident.len() {
            assert(name[i] == '_');
        } else {
            assert(name[i] == decimal_chars(n)[i - ident.len() - 1]);
        }
    }
    assert(name[0] == ident[0]);
}

/// Module variables drawn one after the other from the same counts never
/// collide, whatever the two specifiers: for different identifiers the
/// part before the last `_` differs, and for the same identifier the count
/// does (while it stays below `usize::MAX`, where it stops).
pub proof fn lemma_module_vars_distinct(s1: Seq<char>, s2: Seq<char>, used: Seq<(Seq<char>, nat)>)
    requires
        used_count(used, module_ident(s1)) + 1 < usize::MAX,
    ensures
        module_var(s1, used).0 != module_var(s2, module_var(s1, used).1).0,
{
    let i1 = module_ident(s1);
    let i2 = module_ident(s2);
    if i1 == i2 {
        assert(module_var(s2, module_var(s1, used).1) == module_var(s1, module_var(s1, used).1));
        lemma_module_var_fresh(s1, used);
    } else {
        let (r1, used2) = module_var(s1, used);
        let r2 = module_var(s2, used2).0;
        lemma_module_var_identifier(s1, used);
        lemma_module_var_identifier(s2, used2);
        let n1 = crate::resources::bump(used_count(used, i1));
        let n2 = crate::resources::bump(used_count(used2, i2));
        lemma_decimal_chars_digits(n1);
        lemma_decimal_chars_digits(n2);
        reveal_strlit("_");
        if r1 == r2 {
            if i1.len() < i2.len() {
                let k = i2.len() as int;
                assert(r2[k] == '_');
                assert(r1[k] == decimal_chars(n1)[k - i1.len() - 1]);
            } else if i2.len() < i1.len() {
                let k = i1.len() as int;
                assert(r1[k] == '_');
                assert(r2[k] == decimal_chars(n2)[k - i2.len() - 1]);
            } else {
                assert(i1 =~= r1.subrange(0, i1.len() as int));
                assert(i2 =~= r2.subrange(0, i2.len() as int));
            }
        }
    }
}

/// The views of name counts.
pub open spec fn used_views(v: Seq<(String, usize)>) -> Seq<(Seq<char>, nat)> {
    v.map_values(|e: (String, usize)| (e.0@, e.1 as nat))
}

/// ASCII characters are encoded as their codes.
proof fn lemma_ascii_encode(c: Seq<char>, b: Seq<u8>)
    requires
        c.len() == b.len(),
        vstd::utf8::is_ascii_chars(c),
        forall|i: int| 0 <= i < c.len() ==> (#[trigger] c[i] as u8) == b[i],
    ensures
        vstd::utf8::encode_utf8(c) == b,
{
    vstd::utf8::is_ascii_chars_encode_utf8(c);
    assert forall|i: int| 0 <= i < c.len() implies #[trigger] vstd::utf8::encode_utf8(c)[i] == b[i] by {
        assert(c[i] as u8 == vstd::utf8::encode_utf8(c)[i]);
    }
    assert(vstd::utf8::encode_utf8(c) =~= b);
}

/// The decimal digits are ASCII digit codes.
proof fn lemma_decimal_digits(n: nat)
    ensures
        forall|i: int| 0 <= i < decimal(n).len() ==> 48 <= #[trigger] decimal(n)[i] <= 57,
    decreases n,
{
    if n >= 10 {
        lemma_decimal_digits(n / 10);
        let d = decimal(n / 10);
        assert(decimal(n) == d + seq![(48 + n % 10) as u8]);
        assert forall|i: int| 0 <= i < decimal(n).len() implies 48 <= #[trigger] decimal(n)[i]
            <= 57 by {
            if i < d.len() {
                assert(decimal(n)[i] == d[i]);
            }
        }
    }
}

/// The text `s` whose UTF-8 encoding is the ASCII `b` (each byte the code
/// of the character at its place in `c`).
fn ascii_text(b: Vec<u8>, Ghost(c): Ghost<Seq<char>>) -> (r: String)
    requires
        c.len() == b@.len(),
        vstd::utf8::is_ascii_chars(c),
        forall|i: int| 0 <= i < c.len() ==> (#[trigger] c[i] as u8) == b@[i],
    ensures
        r@ == c,
{
    proof {
        lemma_ascii_encode(c, b@);
        vstd::utf8::encode_utf8_valid_utf8(c);
    }
    match crate::text::text_from_utf8(b) {
        Some(t) => {
            proof {
                crate::text::lemma_encode_injective(t@, c);
            }
            t
        },
        None => {
            assert(false);
            String::new()
        },
    }
}

/// The identifier of a module specifier (see [`module_ident`]), as ASCII
/// bytes and as text.
fn module_ident_of(source: &str) -> (r: (Vec<u8>, String))
    ensures
        r.1@ == module_ident(source@),
        r.0@.len() == r.1@.len(),
        vstd::utf8::is_ascii_chars(r.1@),
        forall|j: int| 0 <= j < r.1@.len() ==> (#[trigger] r.1@[j] as u8) == r.0@[j],
{
    let ghost s = source@;
    let n = source.unicode_len();
    let mut start: usize = 0;
    let mut i: usize = 0;
    while i < n
        invariant
            n == s.len(),
            s == source@,
            i <= n,
            start == slash_end(s, i as nat),
            start <= i,
        decreases n - i,
    {
        if source.get_char(i) == '/' {
            start = i + 1;
        }
        i = i + 1;
    }
    let ghost base = last_segment(s);
    assert(base =~= s.subrange(start as int, n as int));
    let mut end: usize = n;
    let ghost base2: Seq<char> = base;
    proof {
        reveal_strlit(".js");
        reveal_strlit(".ts");
    }
    if n - start >= 3 && source.get_char(n - 3) == '.' && source.get_char(n - 1) == 's' && (
    source.get_char(n - 2) == 'j' || source.get_char(n - 2) == 't') {
        end = n - 3;
        proof {
            let tail = base.subrange(base.len() - 3, base.len() as int);
            if s[n - 2] == 'j' {
                assert(tail =~= ".js"@);
                assert(strip_suffix(base, ".js"@) == Some(base.subrange(0, base.len() - 3)));
            } else {
                assert(tail != ".js"@) by {
                    assert(tail[1] != ".js"@[1]);
                }
                assert(tail =~= ".ts"@);
            }
            base2 = base.subrange(0, base.len() - 3);
            assert(base2 =~= s.subrange(start as int, end as int));
        }
    } else {
        proof {
            if base.len() >= 3 {
                let tail = base.subrange(base.len() - 3, base.len() as int);
                assert(tail[0] == s[n - 3] && tail[1] == s[n - 2] && tail[2] == s[n - 1]);
                if tail == ".js"@ {
                    assert(tail[0] == ".js"@[0] && tail[1] == ".js"@[1] && tail[2] == ".js"@[2]);
                }
                if tail == ".ts"@ {
                    assert(tail[0] == ".ts"@[0] && tail[1] == ".ts"@[1] && tail[2] == ".ts"@[2]);
                }
            }
        }
    }
    let ghost mapped = base2.map_values(|c: char| ident_char(c));
    let ghost ident = module_ident(s);
    let mut bytes: Vec<u8> = Vec::new();
    let ghost mut chars: Seq<char> = seq![];
    let lead = end == start || ('0' <= source.get_char(start) && source.get_char(start) <= '9');
    if lead {
        bytes.push(0x5f);
        proof {
            chars = seq!['_'];
        }
    }
    let ghost pre = chars;
    let mut k: usize = start;
    while k < end
        invariant
            s == source@,
            n == s.len(),
            start <= k <= end <= n,
            base2 =~= s.subrange(start as int, end as int),
            mapped == base2.map_values(|c: char| ident_char(c)),
            chars == pre + mapped.subrange(0, k - start),
            chars.len() == bytes@.len(),
            vstd::utf8::is_ascii_chars(chars),
            forall|j: int| 0 <= j < chars.len() ==> (#[trigger] chars[j] as u8) == bytes@[j],
        decreases end - k,
    {
        let c = source.get_char(k);
        let keep = ('a' <= c && c <= 'z') || ('A' <= c && c <= 'Z') || ('0' <= c && c <= '9')
            || c == '_' || c == '$';
        let byte: u8 = if keep {
            c as u8
        } else {
            0x5f
        };
        bytes.push(byte);
        proof {
            let mc = ident_char(c);
            assert(mapped[k - start] == mc);
            assert('\0' <= mc <= '\u{7f}');
            assert((mc as u8) == byte);
            assert(mapped.subrange(0, k + 1 - start) =~= mapped.subrange(0, k - start).push(mc));
            chars = chars.push(mc);
        }
        k = k + 1;
    }
    proof {
        assert(mapped.subrange(0, end - start) =~= mapped);
        if lead {
            assert(chars =~= seq!['_'] + mapped);
        } else {
            assert(pre =~= seq![]);
            assert(chars =~= mapped);
        }
        assert(chars == ident);
    }
    let mut copy: Vec<u8> = Vec::new();
    crate::text::push_bytes(&mut copy, bytes.as_slice());
    let text = ascii_text(bytes, Ghost(chars));
    (copy, text)
}

/// The count recorded for a name in `used` (see [`used_count`]).
fn count_of(used: &Vec<(String, usize)>, name: &String) -> (r: usize)
    ensures
        r == used_count(used_views(used@), name@),
{
    let ghost uv = used_views(used@);
    let mut j: usize = used.len();
    assert(uv.subrange(0, j as int) =~= uv);
    while j > 0
        invariant
            uv == used_views(used@),
            j <= uv.len(),
            used_count(uv, name@) == used_count(uv.subrange(0, j as int), name@),
        decreases j,
    {
        let ghost pre2 = uv.subrange(0, j as int);
        assert(pre2.drop_last() =~= uv.subrange(0, j - 1 as int));
        assert(pre2.last() == uv[j - 1]);
        assert(uv[j - 1] == (used@[j - 1].0@, used@[j - 1].1 as nat));
        if used[j - 1].0 == *name {
            return used[j - 1].1;
        }
        j = j - 1;
    }
    assert(uv.subrange(0, 0) =~= Seq::<(Seq<char>, nat)>::empty());
    0
}

/// A fresh module variable for `source` (see [`module_var`]), recording its
/// use in `used`.
pub fn unique_module_var(source: &str, used: &mut Vec<(String, usize)>) -> (r: String)
    ensures
        (r@, used_views(final(used)@)) == module_var(source@, used_views(old(used)@)),
{
    let ghost uv = used_views(used@);
    let (bytes, ident_text) = module_ident_of(source);
    let ghost ident = ident_text@;
    let count = count_of(used, &ident_text);
    let next = if count < usize::MAX {
        count + 1
    } else {
        count
    };
    used.push((ident_text, next));
    assert(used_views(used@) =~= uv.push((ident, next as nat)));
    let mut var_bytes = bytes;
    var_bytes.push(0x5f);
    crate::text::push_decimal(&mut var_bytes, next);
    let ghost var = ident + "_"@ + decimal_chars(next as nat);
    proof {
        reveal_strlit("_");
        lemma_decimal_digits(next as nat);
        assert forall|q: int| 0 <= q < var.len() implies '\0' <= #[trigger] var[q] <= '\u{7f}' && (
        var[q] as u8) == var_bytes@[q] by {
            if q < ident.len() {
                assert(var[q] == ident[q]);
            } else if q == ident.len() {
                assert(var[q] == '_');
            } else {
                let d = q - ident.len() - 1;
                assert(var[q] == decimal(next as nat)[d] as char);
                assert(var_bytes@[q] == decimal(next as nat)[d]);
            }
        }
    }
    ascii_text(var_bytes, Ghost(var))
}

/// What the import declarations of one module specifier bring in.
pub struct SourceAgg {
    pub ns_local: Option<Seq<char>>,
    pub has_default: bool,
    pub has_named: bool,
    pub has_namespace: bool,
}

/// `a` after the specifiers `specs[..n]`.
pub open spec fn agg_specs(a: SourceAgg, specs: Seq<Json>, n: nat) -> SourceAgg
    decreases n,
{
    if n == 0 || n > specs.len() {
        a
    } else {
        let b = agg_specs(a, specs, (n - 1) as nat);
        let sp = specs[n - 1];
        if is_type(sp, "ImportSpecifier"@) {
            if imported_of(sp) == Some("default"@) {
                SourceAgg { has_default: true, ..b }
            } else {
                SourceAgg { has_named: true, ..b }
            }
        } else if is_type(sp, "ImportDefaultSpecifier"@) {
            SourceAgg { has_default: true, ..b }
        } else if is_type(sp, "ImportNamespaceSpecifier"@) {
            SourceAgg { has_namespace: true, ns_local: local_of(sp), ..b }
        } else {
            b
        }
    }
}

/// The position of `src` among the keys of `aggs`.
pub open spec fn find_source<A>(aggs: Seq<(Seq<char>, A)>, src: Seq<char>) -> Option<int>
    decreases aggs.len(),
{
    if aggs.len() == 0 {
        None
    } else if aggs.last().0 == src {
        Some(aggs.len() - 1)
    } else {
        find_source(aggs.drop_last(), src)
    }
}

/// An import declaration with specifiers: its module specifier.
pub open spec fn binding_import_source(stmt: Json) -> Option<Seq<char>> {
    if specifiers_of(stmt).len() > 0 {
        crate::estree::import_source(stmt)
    } else {
        None
    }
}

/// What the import declarations among `body[..n]` bring in, per module
/// specifier, in order of first appearance.
pub open spec fn aggregate(body: Seq<Json>, n: nat) -> Seq<(Seq<char>, SourceAgg)>
    decreases n,
{
    if n == 0 || n > body.len() {
        seq![]
    } else {
        let aggs = aggregate(body, (n - 1) as nat);
        let stmt = body[n - 1];
        match binding_import_source(stmt) {
            Some(src) => {
                let specs = specifiers_of(stmt);
                match find_source(aggs, src) {
                    Some(k) => aggs.update(k, (src, agg_specs(aggs[k].1, specs, specs.len()))),
                    None => aggs.push(
                        (
                            src,
                            agg_specs(
                                SourceAgg {
                                    ns_local: None,
                                    has_default: false,
                                    has_named: false,
                                    has_namespace: false,
                                },
                                specs,
                                specs.len(),
                            ),
                        ),
                    ),
                }
            },
            None => aggs,
        }
    }
}

/// How a module specifier's `require(...)` is wrapped.
#[derive(Clone, Copy, PartialEq, Eq, Structural)]
pub enum ImportKind {
    /// `__importStar(require(...))`: a namespace import, or default and named.
    Star,
    /// `__importDefault(require(...))`: default imports only.
    Default,
    /// `require(...)`: named imports only.
    Plain,
}

/// The wrapping a module specifier's imports call for.
pub open spec fn kind_of(a: SourceAgg) -> ImportKind {
    if a.has_namespace || (a.has_default && a.has_named) {
        ImportKind::Star
    } else if a.has_default {
        ImportKind::Default
    } else {
        ImportKind::Plain
    }
}

/// The variable and wrapping of each of `aggs[..n]`: the namespace local,
/// or a fresh module variable; and the name counts after them.
pub open spec fn assign_vars(aggs: Seq<(Seq<char>, SourceAgg)>, used: Seq<(Seq<char>, nat)>, n: nat) -> (
    Seq<(Seq<char>, Seq<char>, ImportKind)>,
    Seq<(Seq<char>, nat)>,
)
    decreases n,
{
    if n == 0 || n > aggs.len() {
        (seq![], used)
    } else {
        let (vars, u) = assign_vars(aggs, used, (n - 1) as nat);
        let (src, a) = aggs[n - 1];
        match a.ns_local {
            Some(l) => (vars.push((src, l, kind_of(a))), u),
            None => {
                let (v, u2) = module_var(src, u);
                (vars.push((src, v, kind_of(a))), u2)
            },
        }
    }
}

/// The variable bound to a module specifier (the first entry for it).
pub open spec fn var_of(vars: Seq<(Seq<char>, Seq<char>, ImportKind)>, src: Seq<char>) -> Option<(Seq<char>, ImportKind)>
    decreases vars.len(),
{
    if vars.len() == 0 {
        None
    } else {
        match var_of(vars.drop_last(), src) {
            Some(x) => Some(x),
            None => if vars.last().0 == src {
                Some((vars.last().1, vars.last().2))
            } else {
                None
            },
        }
    }
}

/// A reference's replacement: `<ns>.<member>`.
pub struct Repl {
    pub ns: Seq<char>,
    pub member: Seq<char>,
}

/// The replacement of each named or default import local among `specs[..n]`.
pub open spec fn spec_repls(specs: Seq<Json>, ns: Seq<char>, n: nat) -> Seq<(Seq<char>, Repl)>
    decreases n,
{
    if n == 0 || n > specs.len() {
        seq![]
    } else {
        let prev = spec_repls(specs, ns, (n - 1) as nat);
        let sp = specs[n - 1];
        match local_of(sp) {
            Some(l) => if is_type(sp, "ImportSpecifier"@) {
                match imported_of(sp) {
                    Some(i) => prev.push((l, Repl { ns, member: i })),
                    None => prev,
                }
            } else if is_type(sp, "ImportDefaultSpecifier"@) {
                prev.push((l, Repl { ns, member: "default"@ }))
            } else {
                prev
            },
            None => prev,
        }
    }
}

/// The replacement of each import local of `body[..n]`, by local name.
pub open spec fn import_repls(body: Seq<Json>, vars: Seq<(Seq<char>, Seq<char>, ImportKind)>, n: nat) -> Seq<(Seq<char>, Repl)>
    decreases n,
{
    if n == 0 || n > body.len() {
        seq![]
    } else {
        let prev = import_repls(body, vars, (n - 1) as nat);
        let stmt = body[n - 1];
        match binding_import_source(stmt) {
            Some(src) => {
                let ns = match var_of(vars, src) {
                    Some((v, _k)) => v,
                    None => src,
                };
                let specs = specifiers_of(stmt);
                prev + spec_repls(specs, ns, specs.len())
            },
            None => prev,
        }
    }
}

/// The replacement recorded for a local name (the last one).
pub open spec fn repl_of(repls: Seq<(Seq<char>, Repl)>, name: Seq<char>) -> Option<Repl>
    decreases repls.len(),
{
    if repls.len() == 0 {
        None
    } else if repls.last().0 == name {
        Some(repls.last().1)
    } else {
        repl_of(repls.drop_last(), name)
    }
}

/// [`SourceAgg`] as an executable value.
pub struct Agg {
    pub ns_local: Option<String>,
    pub has_default: bool,
    pub has_named: bool,
    pub has_namespace: bool,
}

pub open spec fn agg_view(a: Agg) -> SourceAgg {
    SourceAgg {
        ns_local: match a.ns_local {
            Some(l) => Some(l@),
            None => None,
        },
        has_default: a.has_default,
        has_named: a.has_named,
        has_namespace: a.has_namespace,
    }
}

pub open spec fn aggs_view(v: Seq<(String, Agg)>) -> Seq<(Seq<char>, SourceAgg)> {
    v.map_values(|e: (String, Agg)| (e.0@, agg_view(e.1)))
}

pub open spec fn vars_view(v: Seq<(String, String, ImportKind)>) -> Seq<(Seq<char>, Seq<char>, ImportKind)> {
    v.map_values(|e: (String, String, ImportKind)| (e.0@, e.1@, e.2))
}

pub open spec fn repls_view(v: Seq<(String, (String, String))>) -> Seq<(Seq<char>, Repl)> {
    v.map_values(|e: (String, (String, String))| (e.0@, Repl { ns: e.1.0@, member: e.1.1@ }))
}

/// The local a specifier binds.
fn get_local<'a>(sp: &'a Json) -> (r: Option<&'a String>)
    ensures
        match r {
            Some(s) => local_of(*sp) == Some(s@),
            None => local_of(*sp) is None,
        },
{
    match get(sp, "local") {
        Some(l) => get_str(l, "name"),
        None => None,
    }
}

/// The name an import specifier imports.
fn get_imported<'a>(sp: &'a Json) -> (r: Option<&'a String>)
    ensures
        match r {
            Some(s) => imported_of(*sp) == Some(s@),
            None => imported_of(*sp) is None,
        },
{
    match get(sp, "imported") {
        Some(i) => get_export_name(i),
        None => None,
    }
}

/// See [`agg_specs`].
fn agg_specs_into(a: &mut Agg, specs: &Vec<Json>)
    ensures
        agg_view(*final(a)) == agg_specs(agg_view(*old(a)), specs@, specs@.len()),
{
    let ghost a0 = agg_view(*a);
    let mut i: usize = 0;
    while i < specs.len()
        invariant
            i <= specs@.len(),
            agg_view(*a) == agg_specs(a0, specs@, i as nat),
        decreases specs@.len() - i,
    {
        let sp = &specs[i];
        if has_type(sp, "ImportSpecifier") {
            let is_default = match get_imported(sp) {
                Some(n) => is(n, "default"),
                None => false,
            };
            if is_default {
                a.has_default = true;
            } else {
                a.has_named = true;
            }
        } else if has_type(sp, "ImportDefaultSpecifier") {
            a.has_default = true;
        } else if has_type(sp, "ImportNamespaceSpecifier") {
            a.has_namespace = true;
            a.ns_local = match get_local(sp) {
                Some(l) => Some(l.clone()),
                None => None,
            };
        }
        i = i + 1;
    }
}

/// The specifiers of a statement.
fn get_specs<'a>(stmt: &'a Json, empty: &'a Vec<Json>) -> (r: &'a Vec<Json>)
    requires
        empty@.len() == 0,
    ensures
        r@ == specifiers_of(*stmt),
{
    match get_arr(stmt, "specifiers") {
        Some(s) => s,
        None => {
            assert(empty@ =~= seq![]);
            empty
        },
    }
}

/// See [`binding_import_source`].
fn get_binding_import_source<'a>(stmt: &'a Json) -> (r: Option<&'a String>)
    ensures
        match r {
            Some(s) => binding_import_source(*stmt) == Some(s@),
            None => binding_import_source(*stmt) is None,
        },
{
    let has_specs = match get_arr(stmt, "specifiers") {
        Some(s) => s.len() > 0,
        None => false,
    };
    if has_specs {
        crate::estree::get_import_source(stmt)
    } else {
        None
    }
}

/// What [`find_source`] finds is an entry for `src`.
proof fn lemma_find_source<A>(aggs: Seq<(Seq<char>, A)>, src: Seq<char>)
    ensures
        find_source(aggs, src) matches Some(k) ==> 0 <= k < aggs.len() && aggs[k].0 == src,
    decreases aggs.len(),
{
    if aggs.len() > 0 && aggs.last().0 != src {
        lemma_find_source(aggs.drop_last(), src);
    }
}

/// See [`find_source`].
fn find_agg(aggs: &Vec<(String, Agg)>, src: &String) -> (r: Option<usize>)
    ensures
        match r {
            Some(k) => find_source(aggs_view(aggs@), src@) == Some(k as int) && k < aggs@.len(),
            None => find_source(aggs_view(aggs@), src@) is None,
        },
{
    let ghost av = aggs_view(aggs@);
    let mut j: usize = aggs.len();
    assert(av.subrange(0, j as int) =~= av);
    while j > 0
        invariant
            av == aggs_view(aggs@),
            j <= av.len(),
            find_source(av, src@) == find_source(av.subrange(0, j as int), src@),
        decreases j,
    {
        let ghost pre = av.subrange(0, j as int);
        assert(pre.drop_last() =~= av.subrange(0, j - 1 as int));
        assert(pre.last() == av[j - 1]);
        if aggs[j - 1].0 == *src {
            return Some(j - 1);
        }
        j = j - 1;
    }
    None
}

/// See [`aggregate`].
fn aggregate_of(body: &Vec<Json>) -> (r: Vec<(String, Agg)>)
    ensures
        aggs_view(r@) == aggregate(body@, body@.len()),
{
    let mut aggs: Vec<(String, Agg)> = Vec::new();
    assert(aggs_view(aggs@) =~= seq![]);
    let empty: Vec<Json> = Vec::new();
    let mut i: usize = 0;
    while i < body.len()
        invariant
            empty@.len() == 0,
            i <= body@.len(),
            aggs_view(aggs@) == aggregate(body@, i as nat),
        decreases body@.len() - i,
    {
        let stmt = &body[i];
        match get_binding_import_source(stmt) {
            Some(src) => {
                let specs = get_specs(stmt, &empty);
                let ghost before = aggs_view(aggs@);
                match find_agg(&aggs, src) {
                    Some(k) => {
                        proof {
                            lemma_find_source(before, src@);
                        }
                        let mut entry = aggs.remove(k);
                        agg_specs_into(&mut entry.1, specs);
                        let ghost ev = (entry.0@, agg_view(entry.1));
                        aggs.insert(k, entry);
                        assert(aggs_view(aggs@) =~= before.update(k as int, ev));
                    },
                    None => {
                        let mut a = Agg {
                            ns_local: None,
                            has_default: false,
                            has_named: false,
                            has_namespace: false,
                        };
                        agg_specs_into(&mut a, specs);
                        let ghost ev = (src@, agg_view(a));
                        aggs.push((src.clone(), a));
                        assert(aggs_view(aggs@) =~= before.push(ev));
                    },
                }
            },
            None => {},
        }
        i = i + 1;
    }
    aggs
}

/// See [`assign_vars`].
fn assign_vars_of(aggs: &Vec<(String, Agg)>, used: &mut Vec<(String, usize)>) -> (r: Vec<(String, String, ImportKind)>)
    ensures
        (vars_view(r@), used_views(final(used)@)) == assign_vars(
            aggs_view(aggs@),
            used_views(old(used)@),
            aggs@.len(),
        ),
{
    let ghost av = aggs_view(aggs@);
    let ghost u0 = used_views(used@);
    let mut vars: Vec<(String, String, ImportKind)> = Vec::new();
    assert(vars_view(vars@) =~= seq![]);
    let mut i: usize = 0;
    while i < aggs.len()
        invariant
            av == aggs_view(aggs@),
            i <= aggs@.len(),
            (vars_view(vars@), used_views(used@)) == assign_vars(av, u0, i as nat),
        decreases aggs@.len() - i,
    {
        let (src, a) = &aggs[i];
        let kind = if a.has_namespace || (a.has_default && a.has_named) {
            ImportKind::Star
        } else if a.has_default {
            ImportKind::Default
        } else {
            ImportKind::Plain
        };
        let ghost before = vars_view(vars@);
        let var = match &a.ns_local {
            Some(l) => l.clone(),
            None => unique_module_var(src.as_str(), used),
        };
        let ghost ev = (src@, var@, kind);
        vars.push((src.clone(), var, kind));
        assert(vars_view(vars@) =~= before.push(ev));
        i = i + 1;
    }
    vars
}

/// See [`var_of`].
fn var_lookup(vars: &Vec<(String, String, ImportKind)>, src: &str) -> (r: Option<(String, ImportKind)>)
    ensures
        match r {
            Some((v, k)) => var_of(vars_view(vars@), src@) == Some((v@, k)),
            None => var_of(vars_view(vars@), src@) is None,
        },
{
    let ghost vv = vars_view(vars@);
    let mut i: usize = 0;
    while i < vars.len()
        invariant
            vv == vars_view(vars@),
            i <= vv.len(),
            var_of(vv.subrange(0, i as int), src@) is None,
        decreases vv.len() - i,
    {
        let ghost pre = vv.subrange(0, i + 1 as int);
        assert(pre.drop_last() =~= vv.subrange(0, i as int));
        assert(pre.last() == vv[i as int]);
        if crate::text::str_eq(vars[i].0.as_str(), src) {
            proof {
                lemma_var_of_prefix(vv, src@, (i + 1) as nat);
            }
            return Some((vars[i].1.clone(), vars[i].2));
        }
        i = i + 1;
    }
    assert(vv.subrange(0, vv.len() as int) =~= vv);
    None
}

/// A match among the first `n` entries is what [`var_of`] finds.
proof fn lemma_var_of_prefix(vars: Seq<(Seq<char>, Seq<char>, ImportKind)>, src: Seq<char>, n: nat)
    requires
        n <= vars.len(),
        var_of(vars.subrange(0, n as int), src) is Some,
    ensures
        var_of(vars, src) == var_of(vars.subrange(0, n as int), src),
    decreases vars.len() - n,
{
    if n < vars.len() {
        let pre = vars.subrange(0, n + 1 as int);
        assert(pre.drop_last() =~= vars.subrange(0, n as int));
        assert(var_of(pre, src) == var_of(vars.subrange(0, n as int), src));
        lemma_var_of_prefix(vars, src, n + 1);
    } else {
        assert(vars.subrange(0, n as int) =~= vars);
    }
}

/// See [`import_repls`].
fn import_repls_of(body: &Vec<Json>, vars: &Vec<(String, String, ImportKind)>) -> (r: Vec<(String, (String, String))>)
    ensures
        repls_view(r@) == import_repls(body@, vars_view(vars@), body@.len()),
{
    let ghost vv = vars_view(vars@);
    let mut out: Vec<(String, (String, String))> = Vec::new();
    assert(repls_view(out@) =~= seq![]);
    let empty: Vec<Json> = Vec::new();
    let mut i: usize = 0;
    while i < body.len()
        invariant
            vv == vars_view(vars@),
            empty@.len() == 0,
            i <= body@.len(),
            repls_view(out@) == import_repls(body@, vv, i as nat),
        decreases body@.len() - i,
    {
        let stmt = &body[i];
        match get_binding_import_source(stmt) {
            Some(src) => {
                let ns: String = match var_lookup(vars, src.as_str()) {
                    Some((v, _k)) => v,
                    None => src.clone(),
                };
                let specs = get_specs(stmt, &empty);
                let ghost base = repls_view(out@);
                let mut j: usize = 0;
                assert(base + spec_repls(specs@, ns@, 0) =~= base);
                while j < specs.len()
                    invariant
                        j <= specs@.len(),
                        repls_view(out@) == base + spec_repls(specs@, ns@, j as nat),
                    decreases specs@.len() - j,
                {
                    let sp = &specs[j];
                    let ghost before = repls_view(out@);
                    match get_local(sp) {
                        Some(l) => {
                            if has_type(sp, "ImportSpecifier") {
                                match get_imported(sp) {
                                    Some(im) => {
                                        out.push((l.clone(), (ns.clone(), im.clone())));
                                        assert(repls_view(out@) =~= before.push(
                                            (l@, Repl { ns: ns@, member: im@ }),
                                        ));
                                    },
                                    None => {},
                                }
                            } else if has_type(sp, "ImportDefaultSpecifier") {
                                out.push((l.clone(), (ns.clone(), "default".to_string())));
                                assert(repls_view(out@) =~= before.push(
                                    (l@, Repl { ns: ns@, member: "default"@ }),
                                ));
                            }
                        },
                        None => {},
                    }
                    assert(base + spec_repls(specs@, ns@, (j + 1) as nat) =~= (if local_of(
                        specs@[j as int],
                    ) is Some && (is_type(specs@[j as int], "ImportSpecifier"@) && imported_of(
                        specs@[j as int],
                    ) is Some || is_type(specs@[j as int], "ImportDefaultSpecifier"@) && !is_type(
                        specs@[j as int],
                        "ImportSpecifier"@,
                    )) {
                        before.push(spec_repls(specs@, ns@, (j + 1) as nat).last())
                    } else {
                        before
                    }));
                    j = j + 1;
                }
            },
            None => {},
        }
        i = i + 1;
    }
    out
}

/// See [`repl_of`].
fn repl_lookup(repls: &Vec<(String, (String, String))>, name: &String) -> (r: Option<(String, String)>)
    ensures
        match r {
            Some((n, m)) => repl_of(repls_view(repls@), name@) == Some(Repl { ns: n@, member: m@ }),
            None => repl_of(repls_view(repls@), name@) is None,
        },
{
    let ghost rv = repls_view(repls@);
    let mut j: usize = repls.len();
    assert(rv.subrange(0, j as int) =~= rv);
    while j > 0
        invariant
            rv == repls_view(repls@),
            j <= rv.len(),
            repl_of(rv, name@) == repl_of(rv.subrange(0, j as int), name@),
        decreases j,
    {
        let ghost pre = rv.subrange(0, j as int);
        assert(pre.drop_last() =~= rv.subrange(0, j - 1 as int));
        assert(pre.last() == rv[j - 1]);
        if repls[j - 1].0 == *name {
            return Some((repls[j - 1].1.0.clone(), repls[j - 1].1.1.clone()));
        }
        j = j - 1;
    }
    None
}

/// The start of a node, when it fits in a `usize`.
pub open spec fn ustart(j: Json) -> Option<nat> {
    match start_of(j) {
        Some(s) => if s <= usize::MAX {
            Some(s)
        } else {
            None
        },
        None => None,
    }
}

/// The identifiers a binding pattern binds (name and start), in order:
/// through object and array patterns, defaults and rest elements.
pub open spec fn binders(p: Json) -> Seq<(Seq<char>, nat)>
    decreases p, 1int, 0int,
{
    if is_type(p, "Identifier"@) {
        match (str_field(p, "name"@), ustart(p)) {
            (Some(n), Some(s)) => seq![(n, s)],
            _ => seq![],
        }
    } else if is_type(p, "ObjectPattern"@) {
        binders_in(p, "properties"@, 0)
    } else if is_type(p, "ArrayPattern"@) {
        binders_in(p, "elements"@, 0)
    } else if is_type(p, "AssignmentPattern"@) || is_type(p, "RestElement"@) || is_type(
        p,
        "Property"@,
    ) {
        let key = if is_type(p, "AssignmentPattern"@) {
            "left"@
        } else if is_type(p, "RestElement"@) {
            "argument"@
        } else {
            "value"@
        };
        match field(p, key) {
            Some(x) => {
                proof {
                    crate::json::lemma_field_decreases(p, key);
                }
                binders(x)
            },
            None => seq![],
        }
    } else {
        seq![]
    }
}

/// The identifiers bound by the items `i..` of the array field `key` of `p`.
pub open spec fn binders_in(p: Json, key: Seq<char>, i: int) -> Seq<(Seq<char>, nat)>
    decreases p, 0int, match as_arr(field(p, key)) {
        Some(items) => items.len() - i,
        None => 0,
    },
{
    match as_arr(field(p, key)) {
        Some(items) => if 0 <= i < items.len() {
            proof {
                crate::json::lemma_elem_decreases(p, key, i);
            }
            binders(items[i]) + binders_in(p, key, i + 1)
        } else {
            seq![]
        },
        None => seq![],
    }
}

/// See [`binders`].
fn push_binders(out: &mut Vec<(String, usize)>, p: &Json)
    ensures
        used_views(final(out)@) == used_views(old(out)@) + binders(*p),
    decreases p, 1int, 0int,
{
    let ghost o = used_views(out@);
    if has_type(p, "Identifier") {
        match (get_str(p, "name"), get_nat(p, "start")) {
            (Some(n), Some(st)) => {
                out.push((n.clone(), st));
                assert(used_views(out@) =~= o + seq![(n@, st as nat)]);
            },
            _ => {
                assert(o + seq![] =~= o);
            },
        }
    } else if has_type(p, "ObjectPattern") {
        push_binders_in(out, p, "properties", 0);
    } else if has_type(p, "ArrayPattern") {
        push_binders_in(out, p, "elements", 0);
    } else if has_type(p, "AssignmentPattern") || has_type(p, "RestElement") || has_type(
        p,
        "Property",
    ) {
        let key = if has_type(p, "AssignmentPattern") {
            "left"
        } else if has_type(p, "RestElement") {
            "argument"
        } else {
            "value"
        };
        match get(p, key) {
            Some(x) => {
                proof {
                    crate::json::lemma_field_decreases(*p, key@);
                }
                push_binders(out, x);
            },
            None => {
                assert(o + seq![] =~= o);
            },
        }
    } else {
        assert(o + seq![] =~= o);
    }
}

/// See [`binders_in`].
fn push_binders_in(out: &mut Vec<(String, usize)>, p: &Json, key: &str, i: usize)
    ensures
        used_views(final(out)@) == used_views(old(out)@) + binders_in(*p, key@, i as int),
    decreases p, 0int, match as_arr(field(*p, key@)) {
        Some(items) => items.len() - i,
        None => 0,
    },
{
    let ghost o = used_views(out@);
    match get_arr(p, key) {
        Some(items) => {
            if i < items.len() {
                proof {
                    crate::json::lemma_elem_decreases(*p, key@, i as int);
                }
                push_binders(out, &items[i]);
                let ghost mid = used_views(out@);
                push_binders_in(out, p, key, i + 1);
                assert(used_views(out@) =~= o + binders_in(*p, key@, i as int));
            } else {
                assert(o + seq![] =~= o);
            }
        },
        None => {
            assert(o + seq![] =~= o);
        },
    }
}

/// The identifiers the declarators `decls[..n]` bind.
pub open spec fn declarator_binders(decls: Seq<Json>, n: nat) -> Seq<(Seq<char>, nat)>
    decreases n,
{
    if n == 0 || n > decls.len() {
        seq![]
    } else {
        declarator_binders(decls, (n - 1) as nat) + match field(decls[n - 1], "id"@) {
            Some(id) => binders(id),
            None => seq![],
        }
    }
}

/// The declarators of a variable declaration.
pub open spec fn declarators_of(d: Json) -> Seq<Json> {
    match as_arr(field(d, "declarations"@)) {
        Some(ds) => ds,
        None => seq![],
    }
}

/// The identifiers a variable declaration binds.
pub open spec fn var_binders(d: Json) -> Seq<(Seq<char>, nat)> {
    declarator_binders(declarators_of(d), declarators_of(d).len())
}

/// The declaration of an `export <declaration>` (when it is one).
pub open spec fn exported_declaration(stmt: Json) -> Option<Json> {
    if is_type(stmt, "ExportNamedDeclaration"@) {
        match field(stmt, "declaration"@) {
            Some(d) => if d == Json::Null {
                None
            } else {
                Some(d)
            },
            None => None,
        }
    } else {
        None
    }
}

/// Whether a field is missing or `null`.
pub open spec fn is_null_field(j: Json, key: Seq<char>) -> bool {
    match field(j, key) {
        Some(x) => x == Json::Null,
        None => true,
    }
}

/// References to route: each named or default import local of `body[..n]`
/// (by its binding's start) with its replacement, then each binding of an
/// `export const/let/var` with `exports.<name>`.
pub open spec fn import_routes(body: Seq<Json>, repls: Seq<(Seq<char>, Repl)>, n: nat) -> Seq<(nat, Repl)>
    decreases n,
{
    if n == 0 || n > body.len() {
        seq![]
    } else {
        let prev = import_routes(body, repls, (n - 1) as nat);
        let stmt = body[n - 1];
        if binding_import_source(stmt) is Some {
            let specs = specifiers_of(stmt);
            prev + spec_routes(specs, repls, specs.len())
        } else {
            prev
        }
    }
}

/// See [`import_routes`]: the specifiers `specs[..n]`.
pub open spec fn spec_routes(specs: Seq<Json>, repls: Seq<(Seq<char>, Repl)>, n: nat) -> Seq<(nat, Repl)>
    decreases n,
{
    if n == 0 || n > specs.len() {
        seq![]
    } else {
        let prev = spec_routes(specs, repls, (n - 1) as nat);
        let sp = specs[n - 1];
        if is_type(sp, "ImportSpecifier"@) || is_type(sp, "ImportDefaultSpecifier"@) {
            match field(sp, "local"@) {
                Some(l) => match (str_field(l, "name"@), ustart(l)) {
                    (Some(name), Some(at)) => match repl_of(repls, name) {
                        Some(r) => prev.push((at, r)),
                        None => prev,
                    },
                    _ => prev,
                },
                None => prev,
            }
        } else {
            prev
        }
    }
}

/// The bindings of the `export const/let/var` declarations of `body[..n]`,
/// routed through `exports`.
pub open spec fn export_routes(body: Seq<Json>, n: nat) -> Seq<(nat, Repl)>
    decreases n,
{
    if n == 0 || n > body.len() {
        seq![]
    } else {
        let prev = export_routes(body, (n - 1) as nat);
        match exported_declaration(body[n - 1]) {
            Some(d) => if is_type(d, "VariableDeclaration"@) {
                prev + var_binders(d).map_values(
                    |b: (Seq<char>, nat)| (b.1, Repl { ns: "exports"@, member: b.0 }),
                )
            } else {
                prev
            },
            None => prev,
        }
    }
}

/// The module-scope `let`/`var` bindings of `body[..n]` (exported or not).
pub open spec fn module_lets(body: Seq<Json>, n: nat) -> Seq<(Seq<char>, nat)>
    decreases n,
{
    if n == 0 || n > body.len() {
        seq![]
    } else {
        let prev = module_lets(body, (n - 1) as nat);
        let stmt = body[n - 1];
        let d = if is_type(stmt, "VariableDeclaration"@) {
            Some(stmt)
        } else {
            match exported_declaration(stmt) {
                Some(x) => if is_type(x, "VariableDeclaration"@) {
                    Some(x)
                } else {
                    None
                },
                None => None,
            }
        };
        match d {
            Some(v) => if str_field(v, "kind"@) == Some("const"@) {
                prev
            } else {
                prev + var_binders(v)
            },
            None => prev,
        }
    }
}

/// The start of the binding of `name` (the last entry for it).
pub open spec fn binding_of(lets: Seq<(Seq<char>, nat)>, name: Seq<char>) -> Option<nat>
    decreases lets.len(),
{
    if lets.len() == 0 {
        None
    } else if lets.last().0 == name {
        Some(lets.last().1)
    } else {
        binding_of(lets.drop_last(), name)
    }
}

/// Whether a statement is `export { … }` of locals (no declaration, no
/// source).
pub open spec fn is_local_export_list(stmt: Json) -> bool {
    is_type(stmt, "ExportNamedDeclaration"@) && is_null_field(stmt, "declaration"@)
        && is_null_field(stmt, "source"@)
}

/// The live exports of `specs[..n]`: a local `let`/`var` (by its binding's
/// start) and the name it is exported as.
pub open spec fn spec_live(specs: Seq<Json>, lets: Seq<(Seq<char>, nat)>, n: nat) -> Seq<(nat, Seq<char>)>
    decreases n,
{
    if n == 0 || n > specs.len() {
        seq![]
    } else {
        let prev = spec_live(specs, lets, (n - 1) as nat);
        let sp = specs[n - 1];
        match (field(sp, "local"@), field(sp, "exported"@)) {
            (Some(l), Some(e)) => match (export_name(l), export_name(e)) {
                (Some(ln), Some(en)) => match binding_of(lets, ln) {
                    Some(at) => prev.push((at, en)),
                    None => prev,
                },
                _ => prev,
            },
            _ => prev,
        }
    }
}

/// The live exports of the `export { … }` lists of `body[..n]`.
pub open spec fn live_exports(body: Seq<Json>, lets: Seq<(Seq<char>, nat)>, n: nat) -> Seq<(nat, Seq<char>)>
    decreases n,
{
    if n == 0 || n > body.len() {
        seq![]
    } else {
        let prev = live_exports(body, lets, (n - 1) as nat);
        let stmt = body[n - 1];
        if is_local_export_list(stmt) {
            let specs = specifiers_of(stmt);
            prev + spec_live(specs, lets, specs.len())
        } else {
            prev
        }
    }
}

pub open spec fn routes_view(v: Seq<(usize, (String, String))>) -> Seq<(nat, Repl)> {
    v.map_values(|e: (usize, (String, String))| (e.0 as nat, Repl { ns: e.1.0@, member: e.1.1@ }))
}

pub open spec fn live_view(v: Seq<(usize, String)>) -> Seq<(nat, Seq<char>)> {
    v.map_values(|e: (usize, String)| (e.0 as nat, e.1@))
}

/// See [`var_binders`].
fn push_var_binders(out: &mut Vec<(String, usize)>, d: &Json)
    ensures
        used_views(final(out)@) == used_views(old(out)@) + var_binders(*d),
{
    let ghost o = used_views(out@);
    let empty: Vec<Json> = Vec::new();
    let decls: &Vec<Json> = match get_arr(d, "declarations") {
        Some(ds) => ds,
        None => &empty,
    };
    assert(decls@ == declarators_of(*d));
    let mut i: usize = 0;
    assert(o + declarator_binders(decls@, 0) =~= o);
    while i < decls.len()
        invariant
            i <= decls@.len(),
            used_views(out@) == o + declarator_binders(decls@, i as nat),
        decreases decls@.len() - i,
    {
        let ghost before = used_views(out@);
        match get(&decls[i], "id") {
            Some(id) => push_binders(out, id),
            None => {},
        }
        assert(o + declarator_binders(decls@, (i + 1) as nat) =~= before + match field(
            decls@[i as int],
            "id"@,
        ) {
            Some(id) => binders(id),
            None => seq![],
        });
        i = i + 1;
    }
}

/// See [`exported_declaration`].
fn get_exported_declaration<'a>(stmt: &'a Json) -> (r: Option<&'a Json>)
    ensures
        match r {
            Some(d) => exported_declaration(*stmt) == Some(*d),
            None => exported_declaration(*stmt) is None,
        },
{
    if has_type(stmt, "ExportNamedDeclaration") {
        match get(stmt, "declaration") {
            Some(d) => match d {
                Json::Null => None,
                _ => Some(d),
            },
            None => None,
        }
    } else {
        None
    }
}

/// Whether a field is missing or `null`.
fn get_is_null_field(j: &Json, key: &str) -> (r: bool)
    ensures
        r == is_null_field(*j, key@),
{
    match get(j, key) {
        Some(x) => match x {
            Json::Null => true,
            _ => false,
        },
        None => true,
    }
}

/// See [`import_routes`].
fn import_routes_of(body: &Vec<Json>, repls: &Vec<(String, (String, String))>) -> (r: Vec<(usize, (String, String))>)
    ensures
        routes_view(r@) == import_routes(body@, repls_view(repls@), body@.len()),
{
    let ghost rv = repls_view(repls@);
    let mut out: Vec<(usize, (String, String))> = Vec::new();
    assert(routes_view(out@) =~= seq![]);
    let empty: Vec<Json> = Vec::new();
    let mut i: usize = 0;
    while i < body.len()
        invariant
            rv == repls_view(repls@),
            empty@.len() == 0,
            i <= body@.len(),
            routes_view(out@) == import_routes(body@, rv, i as nat),
        decreases body@.len() - i,
    {
        let stmt = &body[i];
        if get_binding_import_source(stmt).is_some() {
            let specs = get_specs(stmt, &empty);
            let ghost base = routes_view(out@);
            let mut j: usize = 0;
            assert(base + spec_routes(specs@, rv, 0) =~= base);
            while j < specs.len()
                invariant
                    rv == repls_view(repls@),
                    j <= specs@.len(),
                    routes_view(out@) == base + spec_routes(specs@, rv, j as nat),
                decreases specs@.len() - j,
            {
                let sp = &specs[j];
                let ghost before = routes_view(out@);
                if has_type(sp, "ImportSpecifier") || has_type(sp, "ImportDefaultSpecifier") {
                    match get(sp, "local") {
                        Some(l) => match (get_str(l, "name"), get_nat(l, "start")) {
                            (Some(name), Some(at)) => match repl_lookup(repls, name) {
                                Some((ns, member)) => {
                                    let ghost ev = (at as nat, Repl { ns: ns@, member: member@ });
                                    out.push((at, (ns, member)));
                                    assert(routes_view(out@) =~= before.push(ev));
                                },
                                None => {},
                            },
                            _ => {},
                        },
                        None => {},
                    }
                }
                j = j + 1;
            }
        }
        i = i + 1;
    }
    out
}

/// See [`export_routes`].
fn export_routes_of(body: &Vec<Json>) -> (r: Vec<(usize, (String, String))>)
    ensures
        routes_view(r@) == export_routes(body@, body@.len()),
{
    let mut out: Vec<(usize, (String, String))> = Vec::new();
    assert(routes_view(out@) =~= seq![]);
    let mut i: usize = 0;
    while i < body.len()
        invariant
            i <= body@.len(),
            routes_view(out@) == export_routes(body@, i as nat),
        decreases body@.len() - i,
    {
        match get_exported_declaration(&body[i]) {
            Some(d) => {
                if has_type(d, "VariableDeclaration") {
                    let mut bs: Vec<(String, usize)> = Vec::new();
                    push_var_binders(&mut bs, d);
                    assert(used_views(bs@) =~= seq![] + var_binders(*d));
                    let ghost base = routes_view(out@);
                    let ghost mapped = var_binders(*d).map_values(
                        |b: (Seq<char>, nat)| (b.1, Repl { ns: "exports"@, member: b.0 }),
                    );
                    let mut k: usize = 0;
                    while k < bs.len()
                        invariant
                            k <= bs@.len(),
                            used_views(bs@) == var_binders(*d),
                            mapped == var_binders(*d).map_values(
                                |b: (Seq<char>, nat)| (b.1, Repl { ns: "exports"@, member: b.0 }),
                            ),
                            routes_view(out@) == base + mapped.subrange(0, k as int),
                        decreases bs@.len() - k,
                    {
                        let ghost before = routes_view(out@);
                        let (name, at) = &bs[k];
                        out.push((*at, ("exports".to_string(), name.clone())));
                        proof {
                            assert(used_views(bs@)[k as int] == (name@, *at as nat));
                            assert(mapped[k as int] == (*at as nat, Repl { ns: "exports"@, member: name@ }));
                            assert(routes_view(out@) =~= before.push(mapped[k as int]));
                            assert(mapped.subrange(0, k + 1 as int) =~= mapped.subrange(0, k as int).push(
                                mapped[k as int],
                            ));
                        }
                        k = k + 1;
                    }
                    assert(mapped.subrange(0, bs@.len() as int) =~= mapped);
                }
            },
            None => {},
        }
        i = i + 1;
    }
    out
}

/// See [`module_lets`].
fn module_lets_of(body: &Vec<Json>) -> (r: Vec<(String, usize)>)
    ensures
        used_views(r@) == module_lets(body@, body@.len()),
{
    let mut out: Vec<(String, usize)> = Vec::new();
    assert(used_views(out@) =~= seq![]);
    let mut i: usize = 0;
    while i < body.len()
        invariant
            i <= body@.len(),
            used_views(out@) == module_lets(body@, i as nat),
        decreases body@.len() - i,
    {
        let stmt = &body[i];
        let d: Option<&Json> = if has_type(stmt, "VariableDeclaration") {
            Some(stmt)
        } else {
            match get_exported_declaration(stmt) {
                Some(x) => if has_type(x, "VariableDeclaration") {
                    Some(x)
                } else {
                    None
                },
                None => None,
            }
        };
        match d {
            Some(v) => {
                let is_const = match get_str(v, "kind") {
                    Some(k) => is(k, "const"),
                    None => false,
                };
                if !is_const {
                    push_var_binders(&mut out, v);
                }
            },
            None => {},
        }
        i = i + 1;
    }
    out
}

/// See [`binding_of`].
fn binding_lookup(lets: &Vec<(String, usize)>, name: &String) -> (r: Option<usize>)
    ensures
        match r {
            Some(at) => binding_of(used_views(lets@), name@) == Some(at as nat),
            None => binding_of(used_views(lets@), name@) is None,
        },
{
    let ghost lv = used_views(lets@);
    let mut j: usize = lets.len();
    assert(lv.subrange(0, j as int) =~= lv);
    while j > 0
        invariant
            lv == used_views(lets@),
            j <= lv.len(),
            binding_of(lv, name@) == binding_of(lv.subrange(0, j as int), name@),
        decreases j,
    {
        let ghost pre = lv.subrange(0, j as int);
        assert(pre.drop_last() =~= lv.subrange(0, j - 1 as int));
        assert(pre.last() == lv[j - 1]);
        if lets[j - 1].0 == *name {
            return Some(lets[j - 1].1);
        }
        j = j - 1;
    }
    None
}

/// See [`live_exports`].
fn live_exports_of(body: &Vec<Json>, lets: &Vec<(String, usize)>) -> (r: Vec<(usize, String)>)
    ensures
        live_view(r@) == live_exports(body@, used_views(lets@), body@.len()),
{
    let ghost lv = used_views(lets@);
    let mut out: Vec<(usize, String)> = Vec::new();
    assert(live_view(out@) =~= seq![]);
    let empty: Vec<Json> = Vec::new();
    let mut i: usize = 0;
    while i < body.len()
        invariant
            lv == used_views(lets@),
            empty@.len() == 0,
            i <= body@.len(),
            live_view(out@) == live_exports(body@, lv, i as nat),
        decreases body@.len() - i,
    {
        let stmt = &body[i];
        if has_type(stmt, "ExportNamedDeclaration") && get_is_null_field(stmt, "declaration")
            && get_is_null_field(stmt, "source") {
            let specs = get_specs(stmt, &empty);
            let ghost base = live_view(out@);
            let mut j: usize = 0;
            assert(base + spec_live(specs@, lv, 0) =~= base);
            while j < specs.len()
                invariant
                    lv == used_views(lets@),
                    j <= specs@.len(),
                    live_view(out@) == base + spec_live(specs@, lv, j as nat),
                decreases specs@.len() - j,
            {
                let sp = &specs[j];
                let ghost before = live_view(out@);
                match (get(sp, "local"), get(sp, "exported")) {
                    (Some(l), Some(e)) => match (get_export_name(l), get_export_name(e)) {
                        (Some(ln), Some(en)) => match binding_lookup(lets, ln) {
                            Some(at) => {
                                out.push((at, en.clone()));
                                assert(live_view(out@) =~= before.push((at as nat, en@)));
                            },
                            None => {},
                        },
                        _ => {},
                    },
                    _ => {},
                }
                j = j + 1;
            }
        }
        i = i + 1;
    }
    out
}

/// The replacement of the first entry at `at`.
pub open spec fn route_at(routes: Seq<(nat, Repl)>, at: nat) -> Option<Repl>
    decreases routes.len(),
{
    if routes.len() == 0 {
        None
    } else {
        match route_at(routes.drop_last(), at) {
            Some(r) => Some(r),
            None => if routes.last().0 == at {
                Some(routes.last().1)
            } else {
                None
            },
        }
    }
}

/// The exported name of the last entry at `at`.
pub open spec fn live_at(live: Seq<(nat, Seq<char>)>, at: nat) -> Option<Seq<char>>
    decreases live.len(),
{
    if live.len() == 0 {
        None
    } else if live.last().0 == at {
        Some(live.last().1)
    } else {
        live_at(live.drop_last(), at)
    }
}

/// Each reference (by its start) of a routed binding among `table[..n]`,
/// with the binding's replacement.
pub open spec fn ref_routes(table: Seq<Symbol>, routes: Seq<(nat, Repl)>, n: nat) -> Seq<(nat, Repl)>
    decreases n,
{
    if n == 0 || n > table.len() {
        seq![]
    } else {
        ref_routes(table, routes, (n - 1) as nat) + match route_at(routes, table[n - 1].decl as nat) {
            Some(r) => table[n - 1].refs@.map_values(|o: usize| (o as nat, r)),
            None => seq![],
        }
    }
}

/// Each reference (by its start) of a live exported binding among
/// `table[..n]`, with the exported name.
pub open spec fn ref_live(table: Seq<Symbol>, live: Seq<(nat, Seq<char>)>, n: nat) -> Seq<(nat, Seq<char>)>
    decreases n,
{
    if n == 0 || n > table.len() {
        seq![]
    } else {
        ref_live(table, live, (n - 1) as nat) + match live_at(live, table[n - 1].decl as nat) {
            Some(e) => table[n - 1].refs@.map_values(|o: usize| (o as nat, e)),
            None => seq![],
        }
    }
}

/// See [`route_at`].
fn route_lookup(routes: &Vec<(usize, (String, String))>, at: usize) -> (r: Option<(String, String)>)
    ensures
        match r {
            Some((n, m)) => route_at(routes_view(routes@), at as nat) == Some(Repl { ns: n@, member: m@ }),
            None => route_at(routes_view(routes@), at as nat) is None,
        },
{
    let ghost rv = routes_view(routes@);
    let mut i: usize = 0;
    while i < routes.len()
        invariant
            rv == routes_view(routes@),
            i <= rv.len(),
            route_at(rv.subrange(0, i as int), at as nat) is None,
        decreases rv.len() - i,
    {
        let ghost pre = rv.subrange(0, i + 1 as int);
        assert(pre.drop_last() =~= rv.subrange(0, i as int));
        assert(pre.last() == rv[i as int]);
        if routes[i].0 == at {
            proof {
                lemma_route_at_prefix(rv, at as nat, (i + 1) as nat);
            }
            return Some((routes[i].1.0.clone(), routes[i].1.1.clone()));
        }
        i = i + 1;
    }
    assert(rv.subrange(0, rv.len() as int) =~= rv);
    None
}

/// A match among the first `n` entries is what [`route_at`] finds.
proof fn lemma_route_at_prefix(routes: Seq<(nat, Repl)>, at: nat, n: nat)
    requires
        n <= routes.len(),
        route_at(routes.subrange(0, n as int), at) is Some,
    ensures
        route_at(routes, at) == route_at(routes.subrange(0, n as int), at),
    decreases routes.len() - n,
{
    if n < routes.len() {
        let pre = routes.subrange(0, n + 1 as int);
        assert(pre.drop_last() =~= routes.subrange(0, n as int));
        assert(route_at(pre, at) == route_at(routes.subrange(0, n as int), at));
        lemma_route_at_prefix(routes, at, n + 1);
    } else {
        assert(routes.subrange(0, n as int) =~= routes);
    }
}

/// See [`live_at`].
fn live_lookup(live: &Vec<(usize, String)>, at: usize) -> (r: Option<String>)
    ensures
        match r {
            Some(e) => live_at(live_view(live@), at as nat) == Some(e@),
            None => live_at(live_view(live@), at as nat) is None,
        },
{
    let ghost lv = live_view(live@);
    let mut j: usize = live.len();
    assert(lv.subrange(0, j as int) =~= lv);
    while j > 0
        invariant
            lv == live_view(live@),
            j <= lv.len(),
            live_at(lv, at as nat) == live_at(lv.subrange(0, j as int), at as nat),
        decreases j,
    {
        let ghost pre = lv.subrange(0, j as int);
        assert(pre.drop_last() =~= lv.subrange(0, j - 1 as int));
        assert(pre.last() == lv[j - 1]);
        if live[j - 1].0 == at {
            return Some(live[j - 1].1.clone());
        }
        j = j - 1;
    }
    None
}

/// See [`ref_routes`].
fn ref_routes_of(table: &Vec<Symbol>, routes: &Vec<(usize, (String, String))>) -> (r: Vec<(usize, (String, String))>)
    ensures
        routes_view(r@) == ref_routes(table@, routes_view(routes@), table@.len()),
{
    let ghost rv = routes_view(routes@);
    let mut out: Vec<(usize, (String, String))> = Vec::new();
    assert(routes_view(out@) =~= seq![]);
    let mut i: usize = 0;
    while i < table.len()
        invariant
            rv == routes_view(routes@),
            i <= table@.len(),
            routes_view(out@) == ref_routes(table@, rv, i as nat),
        decreases table@.len() - i,
    {
        let sym = &table[i];
        let ghost base = routes_view(out@);
        match route_lookup(routes, sym.decl) {
            Some((ns, member)) => {
                let ghost rp = Repl { ns: ns@, member: member@ };
                let ghost mapped = sym.refs@.map_values(|o: usize| (o as nat, rp));
                let mut k: usize = 0;
                while k < sym.refs.len()
                    invariant
                        k <= sym.refs@.len(),
                        ns@ == rp.ns,
                        member@ == rp.member,
                        mapped == sym.refs@.map_values(|o: usize| (o as nat, rp)),
                        routes_view(out@) == base + mapped.subrange(0, k as int),
                    decreases sym.refs@.len() - k,
                {
                    let ghost before = routes_view(out@);
                    out.push((sym.refs[k], (ns.clone(), member.clone())));
                    assert(routes_view(out@) =~= before.push(mapped[k as int]));
                    assert(mapped.subrange(0, k + 1 as int) =~= mapped.subrange(0, k as int).push(
                        mapped[k as int],
                    ));
                    k = k + 1;
                }
                assert(mapped.subrange(0, sym.refs@.len() as int) =~= mapped);
            },
            None => {
                assert(base + seq![] =~= base);
            },
        }
        i = i + 1;
    }
    out
}

/// See [`ref_live`].
fn ref_live_of(table: &Vec<Symbol>, live: &Vec<(usize, String)>) -> (r: Vec<(usize, String)>)
    ensures
        live_view(r@) == ref_live(table@, live_view(live@), table@.len()),
{
    let ghost lv = live_view(live@);
    let mut out: Vec<(usize, String)> = Vec::new();
    assert(live_view(out@) =~= seq![]);
    let mut i: usize = 0;
    while i < table.len()
        invariant
            lv == live_view(live@),
            i <= table@.len(),
            live_view(out@) == ref_live(table@, lv, i as nat),
        decreases table@.len() - i,
    {
        let sym = &table[i];
        let ghost base = live_view(out@);
        match live_lookup(live, sym.decl) {
            Some(e) => {
                let ghost ev = e@;
                let ghost mapped = sym.refs@.map_values(|o: usize| (o as nat, ev));
                let mut k: usize = 0;
                while k < sym.refs.len()
                    invariant
                        k <= sym.refs@.len(),
                        e@ == ev,
                        mapped == sym.refs@.map_values(|o: usize| (o as nat, ev)),
                        live_view(out@) == base + mapped.subrange(0, k as int),
                    decreases sym.refs@.len() - k,
                {
                    let ghost before = live_view(out@);
                    out.push((sym.refs[k], e.clone()));
                    assert(live_view(out@) =~= before.push(mapped[k as int]));
                    assert(mapped.subrange(0, k + 1 as int) =~= mapped.subrange(0, k as int).push(
                        mapped[k as int],
                    ));
                    k = k + 1;
                }
                assert(mapped.subrange(0, sym.refs@.len() as int) =~= mapped);
            },
            None => {
                assert(base + seq![] =~= base);
            },
        }
        i = i + 1;
    }
    out
}

/// State of the reference rewriting.
pub struct RefRewriter {
    /// Each reference (by start) to route, with its replacement.
    routes: Vec<(usize, (String, String))>,
    /// Each reference (by start) to a live exported binding, with the name
    /// it is exported as.
    live: Vec<(usize, String)>,
    /// Identifier starts already handled by their parent (call callees,
    /// shorthand properties, export specifiers).
    claimed: Vec<usize>,
    /// Starts of the assignments and updates that are whole statements.
    stmt_level: Vec<usize>,
    /// Whether a dynamic `import()` was rewritten.
    import_star_used: bool,
    /// The module's source text.
    source: Vec<u8>,
    /// The rewrites.
    edits: Vec<Edit>,
}

/// The state of the reference rewriting as plain values.
pub struct RefView {
    pub routes: Seq<(nat, Repl)>,
    pub live: Seq<(nat, Seq<char>)>,
    pub claimed: Seq<nat>,
    pub stmt_level: Seq<nat>,
    pub star: bool,
    pub src: Seq<u8>,
    pub edits: Seq<EditV>,
}

pub open spec fn nat_views(v: Seq<usize>) -> Seq<nat> {
    v.map_values(|x: usize| x as nat)
}

impl View for RefRewriter {
    type V = RefView;

    closed spec fn view(&self) -> RefView {
        RefView {
            routes: routes_view(self.routes@),
            live: live_view(self.live@),
            claimed: nat_views(self.claimed@),
            stmt_level: nat_views(self.stmt_level@),
            star: self.import_star_used,
            src: self.source@,
            edits: crate::text::edit_views(self.edits@),
        }
    }
}

/// `<ns>.<member>`.
pub open spec fn member_text(r: Repl) -> Seq<u8> {
    enc(r.ns) + enc("."@) + enc(r.member)
}

/// The replacement of an identifier reference at `at` that no parent has
/// handled yet.
pub open spec fn free_route(v: RefView, id: Json) -> Option<Repl> {
    if is_type(id, "Identifier"@) {
        match ustart(id) {
            Some(at) => if v.claimed.contains(at) {
                None
            } else {
                route_at(v.routes, at)
            },
            None => None,
        }
    } else {
        None
    }
}

/// The exported name of a live binding written through the identifier `id`
/// (one that is not routed).
pub open spec fn live_target(v: RefView, id: Json) -> Option<Seq<char>> {
    if is_type(id, "Identifier"@) {
        match ustart(id) {
            Some(at) => if route_at(v.routes, at) is Some {
                None
            } else {
                live_at(v.live, at)
            },
            None => None,
        }
    } else {
        None
    }
}

/// A replacement of a node's text, when its span is known.
pub open spec fn replace_node(j: Json, text: Seq<u8>) -> Seq<EditV> {
    match uspan(j) {
        Some((s, e)) => seq![EditV { start: s, end: e, text, origin: None }],
        None => seq![],
    }
}

/// `v` with `at` claimed and `edits` added.
pub open spec fn claim(v: RefView, at: nat, edits: Seq<EditV>) -> RefView {
    RefView { claimed: v.claimed.push(at), edits: v.edits + edits, ..v }
}

/// The live binding an assignment or prefix update writes, whose mirror
/// into `exports` opens at its start.
pub open spec fn live_write(v: RefView, x: Json) -> Option<Seq<char>> {
    if is_type(x, "AssignmentExpression"@) {
        match field(x, "left"@) {
            Some(l) => live_target(v, l),
            None => None,
        }
    } else if is_type(x, "UpdateExpression"@) && flag(x, "prefix"@) {
        match field(x, "argument"@) {
            Some(a) => live_target(v, a),
            None => None,
        }
    } else {
        None
    }
}

/// Whether a node is a whole-statement expression.
pub open spec fn at_statement_level(v: RefView, x: Json) -> bool {
    match ustart(x) {
        Some(s) => v.stmt_level.contains(s),
        None => false,
    }
}

/// The text that opens the mirror of a write into `exports.<name>`.
pub open spec fn mirror_open(name: Seq<char>, statement: bool) -> Seq<u8> {
    (if statement {
        seq![]
    } else {
        enc("("@)
    }) + enc("exports."@) + enc(name) + enc(" = "@)
}

/// A postfix update `x++` of a live binding exported as `name`:
/// `(exports.<name> = ++x) - 1` (`+ 1` for `--`), in parentheses unless it
/// is a whole statement.
pub open spec fn postfix_text(name: Seq<char>, op: Seq<char>, arg: Seq<char>, statement: bool) -> Seq<u8> {
    let inner = enc("(exports."@) + enc(name) + enc(" = "@) + enc(op) + enc(arg) + enc(") "@) + (if op
        == "++"@ {
        enc("-"@)
    } else {
        enc("+"@)
    }) + enc(" 1"@);
    if statement {
        inner
    } else {
        enc("("@) + inner + enc(")"@)
    }
}

/// An insertion at the start or the end of a node.
pub open spec fn insert_at(j: Json, end: bool, text: Seq<u8>) -> Seq<EditV> {
    match uspan(j) {
        Some((s, e)) => seq![EditV { start: if end { e } else { s }, end: if end { e } else { s }, text, origin: None }],
        None => seq![],
    }
}

/// The starts of the identifiers of an export specifier.
pub open spec fn specifier_starts(sp: Json) -> Seq<nat> {
    (match field(sp, "local"@) {
        Some(l) => match ustart(l) {
            Some(a) => seq![a],
            None => seq![],
        },
        None => seq![],
    }) + match field(sp, "exported"@) {
        Some(e) => match ustart(e) {
            Some(a) => seq![a],
            None => seq![],
        },
        None => seq![],
    }
}

/// Entering a node during the reference rewriting.
pub open spec fn ref_enter(v: RefView, x: Json) -> RefView {
    if is_type(x, "ExportSpecifier"@) {
        RefView { claimed: v.claimed + specifier_starts(x), ..v }
    } else if is_type(x, "ExpressionStatement"@) {
        match field(x, "expression"@) {
            Some(e) => if (is_type(e, "AssignmentExpression"@) || is_type(e, "UpdateExpression"@))
                && ustart(e) is Some {
                RefView { stmt_level: v.stmt_level.push(ustart(e)->0), ..v }
            } else {
                v
            },
            None => v,
        }
    } else if is_type(x, "CallExpression"@) {
        match field(x, "callee"@) {
            Some(c) => match free_route(v, c) {
                Some(r) => claim(
                    v,
                    ustart(c)->0,
                    replace_node(c, enc("(0, "@) + member_text(r) + enc(")"@)),
                ),
                None => v,
            },
            None => v,
        }
    } else if is_type(x, "Property"@) && flag(x, "shorthand"@) {
        match field(x, "value"@) {
            Some(val) => {
                let id = if is_type(val, "AssignmentPattern"@) {
                    match field(val, "left"@) {
                        Some(l) => l,
                        None => Json::Null,
                    }
                } else {
                    val
                };
                match (free_route(v, id), str_field(id, "name"@)) {
                    (Some(r), Some(name)) => claim(
                        v,
                        ustart(id)->0,
                        replace_node(id, enc(name) + enc(": "@) + member_text(r)),
                    ),
                    _ => v,
                }
            },
            None => v,
        }
    } else if is_type(x, "ImportExpression"@) {
        match (field(x, "source"@), uspan(x)) {
            (Some(src), Some((s, e))) => match uspan(src) {
                Some((ss, se)) => if s <= ss && se <= e {
                    RefView {
                        star: true,
                        edits: v.edits + seq![
                            EditV {
                                start: s,
                                end: ss,
                                text: enc("Promise.resolve().then(() => __importStar(require("@),
                                origin: None,
                            },
                            EditV { start: se, end: e, text: enc(")))"@), origin: None },
                        ],
                        ..v
                    }
                } else {
                    v
                },
                None => v,
            },
            _ => v,
        }
    } else if is_type(x, "UpdateExpression"@) && !flag(x, "prefix"@) {
        match (field(x, "argument"@), str_field(x, "operator"@)) {
            (Some(a), Some(op)) => match (live_target(v, a), str_field(a, "name"@)) {
                (Some(name), Some(arg)) => RefView {
                    edits: v.edits + replace_node(
                        x,
                        postfix_text(name, op, arg, at_statement_level(v, x)),
                    ),
                    ..v
                },
                _ => v,
            },
            _ => v,
        }
    } else if live_write(v, x) is Some {
        RefView {
            edits: v.edits + insert_at(
                x,
                false,
                mirror_open(live_write(v, x)->0, at_statement_level(v, x)),
            ),
            ..v
        }
    } else {
        match free_route(v, x) {
            Some(r) => RefView { edits: v.edits + replace_node(x, member_text(r)), ..v },
            None => v,
        }
    }
}

/// Leaving a node during the reference rewriting: a mirrored write that is
/// not a whole statement gets its closing parenthesis.
pub open spec fn ref_exit(v: RefView, x: Json) -> RefView {
    if live_write(v, x) is Some && !at_statement_level(v, x) {
        RefView { edits: v.edits + insert_at(x, true, enc(")"@)), ..v }
    } else {
        v
    }
}

/// One traversal step of the reference rewriting.
#[verifier::opaque]
pub open spec fn ref_step(v: RefView, e: Event) -> RefView {
    if e.0 {
        ref_exit(v, e.1)
    } else {
        ref_enter(v, e.1)
    }
}

/// Whether `v` holds `x`.
fn contains_usize(v: &Vec<usize>, x: usize) -> (r: bool)
    ensures
        r == nat_views(v@).contains(x as nat),
{
    let mut i: usize = 0;
    while i < v.len()
        invariant
            i <= v@.len(),
            forall|k: int| 0 <= k < i ==> v@[k] != x,
        decreases v@.len() - i,
    {
        if v[i] == x {
            assert(nat_views(v@)[i as int] == x as nat);
            return true;
        }
        i = i + 1;
    }
    assert forall|k: int| 0 <= k < nat_views(v@).len() implies nat_views(v@)[k] != x as nat by {
        assert(nat_views(v@)[k] == v@[k] as nat);
    }
    false
}

/// Append `member_text(<ns, member>)` to `out`.
fn push_member(out: &mut Vec<u8>, ns: &String, member: &String)
    ensures
        final(out)@ == old(out)@ + member_text(Repl { ns: ns@, member: member@ }),
{
    push_str(out, ns.as_str());
    push_str(out, ".");
    push_str(out, member.as_str());
}

/// A replacement of a node's text.
fn replace_node_of(j: &Json, text: Vec<u8>) -> (r: Vec<Edit>)
    ensures
        crate::text::edit_views(r@) == replace_node(*j, text@),
{
    let mut out: Vec<Edit> = Vec::new();
    match get_span(j) {
        Some((s, e)) => {
            let ed = Edit { start: s, end: e, text, origin: None };
            let ghost ev = ed@;
            out.push(ed);
            assert(crate::text::edit_views(out@) =~= seq![ev]);
        },
        None => {
            assert(crate::text::edit_views(out@) =~= seq![]);
        },
    }
    out
}

/// An insertion at the start or the end of a node.
fn insert_at_of(j: &Json, end: bool, text: Vec<u8>) -> (r: Vec<Edit>)
    ensures
        crate::text::edit_views(r@) == insert_at(*j, end, text@),
{
    let mut out: Vec<Edit> = Vec::new();
    match get_span(j) {
        Some((s, e)) => {
            let at = if end {
                e
            } else {
                s
            };
            let ed = Edit { start: at, end: at, text, origin: None };
            let ghost ev = ed@;
            out.push(ed);
            assert(crate::text::edit_views(out@) =~= seq![ev]);
        },
        None => {
            assert(crate::text::edit_views(out@) =~= seq![]);
        },
    }
    out
}

/// The start of a node, when it fits in a `usize`.
fn get_ustart(j: &Json) -> (r: Option<usize>)
    ensures
        match r {
            Some(s) => ustart(*j) == Some(s as nat),
            None => ustart(*j) is None,
        },
{
    get_nat(j, "start")
}

/// See [`mirror_open`].
fn mirror_open_of(name: &String, statement: bool) -> (r: Vec<u8>)
    ensures
        r@ == mirror_open(name@, statement),
{
    let mut out: Vec<u8> = Vec::new();
    if !statement {
        push_str(&mut out, "(");
    }
    let ghost a = out@;
    push_str(&mut out, "exports.");
    push_str(&mut out, name.as_str());
    push_str(&mut out, " = ");
    proof {
        if statement {
            assert(a =~= seq![]);
        }
    }
    out
}

/// See [`postfix_text`].
fn postfix_text_of(name: &String, op: &String, arg: &String, statement: bool) -> (r: Vec<u8>)
    ensures
        r@ == postfix_text(name@, op@, arg@, statement),
{
    let mut inner: Vec<u8> = Vec::new();
    push_str(&mut inner, "(exports.");
    push_str(&mut inner, name.as_str());
    push_str(&mut inner, " = ");
    push_str(&mut inner, op.as_str());
    push_str(&mut inner, arg.as_str());
    push_str(&mut inner, ") ");
    if is(op, "++") {
        push_str(&mut inner, "-");
    } else {
        push_str(&mut inner, "+");
    }
    push_str(&mut inner, " 1");
    if statement {
        inner
    } else {
        let mut out: Vec<u8> = Vec::new();
        push_str(&mut out, "(");
        push_bytes(&mut out, inner.as_slice());
        push_str(&mut out, ")");
        out
    }
}

impl RefRewriter {
    /// See [`free_route`]; with the identifier's start.
    fn free_route(&self, id: &Json) -> (r: Option<(usize, (String, String))>)
        ensures
            match r {
                Some((at, (n, m))) => free_route(self@, *id) == Some(Repl { ns: n@, member: m@ })
                    && ustart(*id) == Some(at as nat),
                None => free_route(self@, *id) is None,
            },
    {
        if !has_type(id, "Identifier") {
            return None;
        }
        match get_ustart(id) {
            Some(at) => {
                if contains_usize(&self.claimed, at) {
                    None
                } else {
                    match route_lookup(&self.routes, at) {
                        Some(rp) => Some((at, rp)),
                        None => None,
                    }
                }
            },
            None => None,
        }
    }

    /// See [`live_target`].
    fn live_target(&self, id: &Json) -> (r: Option<String>)
        ensures
            match r {
                Some(n) => live_target(self@, *id) == Some(n@),
                None => live_target(self@, *id) is None,
            },
    {
        if !has_type(id, "Identifier") {
            return None;
        }
        match get_ustart(id) {
            Some(at) => {
                if route_lookup(&self.routes, at).is_some() {
                    None
                } else {
                    live_lookup(&self.live, at)
                }
            },
            None => None,
        }
    }

    /// See [`live_write`].
    fn live_write(&self, x: &Json) -> (r: Option<String>)
        ensures
            match r {
                Some(n) => live_write(self@, *x) == Some(n@),
                None => live_write(self@, *x) is None,
            },
    {
        if has_type(x, "AssignmentExpression") {
            match get(x, "left") {
                Some(l) => self.live_target(l),
                None => None,
            }
        } else if has_type(x, "UpdateExpression") && get_flag(x, "prefix") {
            match get(x, "argument") {
                Some(a) => self.live_target(a),
                None => None,
            }
        } else {
            None
        }
    }

    /// See [`at_statement_level`].
    fn at_statement_level(&self, x: &Json) -> (r: bool)
        ensures
            r == at_statement_level(self@, *x),
    {
        match get_ustart(x) {
            Some(s) => contains_usize(&self.stmt_level, s),
            None => false,
        }
    }
}

impl RefRewriter {
    /// Append `more` to the rewrites.
    fn add_edits(&mut self, more: Vec<Edit>)
        ensures
            final(self)@ == (RefView {
                edits: old(self)@.edits + crate::text::edit_views(more@),
                ..old(self)@
            }),
    {
        append_edits(&mut self.edits, more);
    }

    /// Claim `at` and add `more`.
    fn claim(&mut self, at: usize, more: Vec<Edit>)
        ensures
            final(self)@ == claim(old(self)@, at as nat, crate::text::edit_views(more@)),
    {
        let ghost c = nat_views(self.claimed@);
        self.claimed.push(at);
        assert(nat_views(self.claimed@) =~= c.push(at as nat));
        append_edits(&mut self.edits, more);
    }

    /// See [`ref_enter`].
    fn enter(&mut self, x: &Json)
        ensures
            final(self)@ == ref_enter(old(self)@, *x),
    {
        let ghost v0 = self@;
        if has_type(x, "ExportSpecifier") {
            let ghost c = nat_views(self.claimed@);
            match get(x, "local") {
                Some(l) => match get_ustart(l) {
                    Some(a) => self.claimed.push(a),
                    None => {},
                },
                None => {},
            }
            let ghost mid = nat_views(self.claimed@);
            match get(x, "exported") {
                Some(e) => match get_ustart(e) {
                    Some(a) => self.claimed.push(a),
                    None => {},
                },
                None => {},
            }
            assert(nat_views(self.claimed@) =~= c + specifier_starts(*x));
        } else if has_type(x, "ExpressionStatement") {
            match get(x, "expression") {
                Some(e) => {
                    if has_type(e, "AssignmentExpression") || has_type(e, "UpdateExpression") {
                        match get_ustart(e) {
                            Some(st) => {
                                let ghost sl = nat_views(self.stmt_level@);
                                self.stmt_level.push(st);
                                assert(nat_views(self.stmt_level@) =~= sl.push(st as nat));
                            },
                            None => {},
                        }
                    }
                },
                None => {},
            }
        } else if has_type(x, "CallExpression") {
            match get(x, "callee") {
                Some(c) => match self.free_route(c) {
                    Some((at, (ns, member))) => {
                        let mut t: Vec<u8> = Vec::new();
                        push_str(&mut t, "(0, ");
                        push_member(&mut t, &ns, &member);
                        push_str(&mut t, ")");
                        let more = replace_node_of(c, t);
                        self.claim(at, more);
                    },
                    None => {},
                },
                None => {},
            }
        } else if has_type(x, "Property") && get_flag(x, "shorthand") {
            match get(x, "value") {
                Some(val) => {
                    let null = Json::Null;
                    let id: &Json = if has_type(val, "AssignmentPattern") {
                        match get(val, "left") {
                            Some(l) => l,
                            None => &null,
                        }
                    } else {
                        val
                    };
                    match (self.free_route(id), get_str(id, "name")) {
                        (Some((at, (ns, member))), Some(name)) => {
                            let mut t: Vec<u8> = Vec::new();
                            push_str(&mut t, name.as_str());
                            push_str(&mut t, ": ");
                            push_member(&mut t, &ns, &member);
                            let more = replace_node_of(id, t);
                            self.claim(at, more);
                        },
                        _ => {},
                    }
                },
                None => {},
            }
        } else if has_type(x, "ImportExpression") {
            match (get(x, "source"), get_span(x)) {
                (Some(src), Some((s, e))) => match get_span(src) {
                    Some((ss, se)) => {
                        if s <= ss && se <= e {
                            let mut open: Vec<u8> = Vec::new();
                            push_str(&mut open, "Promise.resolve().then(() => __importStar(require(");
                            let mut close: Vec<u8> = Vec::new();
                            push_str(&mut close, ")))");
                            let mut more: Vec<Edit> = Vec::new();
                            let e1 = Edit { start: s, end: ss, text: open, origin: None };
                            let e2 = Edit { start: se, end: e, text: close, origin: None };
                            let ghost ev1 = e1@;
                            let ghost ev2 = e2@;
                            more.push(e1);
                            more.push(e2);
                            assert(crate::text::edit_views(more@) =~= seq![ev1, ev2]);
                            self.import_star_used = true;
                            self.add_edits(more);
                        }
                    },
                    None => {},
                },
                _ => {},
            }
        } else if has_type(x, "UpdateExpression") && !get_flag(x, "prefix") {
            match (get(x, "argument"), get_str(x, "operator")) {
                (Some(a), Some(op)) => match (self.live_target(a), get_str(a, "name")) {
                    (Some(name), Some(arg)) => {
                        let statement = self.at_statement_level(x);
                        let t = postfix_text_of(&name, op, arg, statement);
                        let more = replace_node_of(x, t);
                        self.add_edits(more);
                    },
                    _ => {},
                },
                _ => {},
            }
        } else {
            match self.live_write(x) {
                Some(name) => {
                    let statement = self.at_statement_level(x);
                    let t = mirror_open_of(&name, statement);
                    let more = insert_at_of(x, false, t);
                    self.add_edits(more);
                },
                None => match self.free_route(x) {
                    Some((_at, (ns, member))) => {
                        let mut t: Vec<u8> = Vec::new();
                        push_member(&mut t, &ns, &member);
                        let more = replace_node_of(x, t);
                        self.add_edits(more);
                    },
                    None => {},
                },
            }
        }
    }

    /// See [`ref_exit`].
    fn exit(&mut self, x: &Json)
        ensures
            final(self)@ == ref_exit(old(self)@, *x),
    {
        if self.live_write(x).is_some() && !self.at_statement_level(x) {
            let mut t: Vec<u8> = Vec::new();
            push_str(&mut t, ")");
            let more = insert_at_of(x, true, t);
            self.add_edits(more);
        }
    }
}

impl Visitor for RefRewriter {
    open spec fn step(s: RefView, e: Event) -> RefView {
        ref_step(s, e)
    }

    fn visit(&mut self, exit: bool, node: &Json) {
        proof {
            reveal(ref_step);
        }
        if exit {
            self.exit(node);
        } else {
            self.enter(node);
        }
    }
}

/// The state of the statement rewriting.
pub struct StmtState {
    pub vars: Seq<(Seq<char>, Seq<char>, ImportKind)>,
    pub used: Seq<(Seq<char>, nat)>,
    pub emitted: Seq<Seq<char>>,
    pub exported: Seq<Seq<char>>,
    pub needs: Needs,
    pub edits: Seq<EditV>,
}

/// `require("<src>")`.
pub open spec fn require_text(src: Seq<char>) -> Seq<u8> {
    enc("require("@) + js_string(enc(src)) + enc(")"@)
}

/// `Object.defineProperty(exports, "<name>", { enumerable: true, configurable: true, get: () => <ns>.<member> });`
pub open spec fn getter_text(name: Seq<char>, r: Repl) -> Seq<u8> {
    enc("Object.defineProperty(exports, "@) + js_string(enc(name)) + enc(
        ", { enumerable: true, configurable: true, get: () => "@,
    ) + member_text(r) + enc(" });"@)
}

/// `exports.<name> = <value>;`.
pub open spec fn assign_text(name: Seq<char>, value: Seq<u8>) -> Seq<u8> {
    enc("exports."@) + enc(name) + enc(" = "@) + value + enc(";"@)
}

/// The names an exported declaration binds.
pub open spec fn declaration_names(d: Json) -> Seq<Seq<char>> {
    if is_type(d, "VariableDeclaration"@) {
        var_binders(d).map_values(|b: (Seq<char>, nat)| b.0)
    } else if is_type(d, "FunctionDeclaration"@) || is_type(d, "ClassDeclaration"@) {
        match field(d, "id"@) {
            Some(id) => match str_field(id, "name"@) {
                Some(n) => seq![n],
                None => seq![],
            },
            None => seq![],
        }
    } else {
        seq![]
    }
}

/// `\nexports.<n> = <n>;` for each name.
pub open spec fn export_assignments(names: Seq<Seq<char>>) -> Seq<u8>
    decreases names.len(),
{
    if names.len() == 0 {
        seq![]
    } else {
        export_assignments(names.drop_last()) + enc("\n"@) + assign_text(names.last(), enc(names.last()))
    }
}

/// The getters of the re-exports `specs[..n]` of a module bound to `ns`.
pub open spec fn reexport_getters(specs: Seq<Json>, ns: Seq<char>, n: nat) -> Seq<u8>
    decreases n,
{
    if n == 0 || n > specs.len() {
        seq![]
    } else {
        reexport_getters(specs, ns, (n - 1) as nat) + match (field(specs[n - 1], "local"@), field(
            specs[n - 1],
            "exported"@,
        )) {
            (Some(l), Some(e)) => match (export_name(l), export_name(e)) {
                (Some(ln), Some(en)) => getter_text(en, Repl { ns, member: ln }),
                _ => seq![],
            },
            _ => seq![],
        }
    }
}

/// The exports of the local list `specs[..n]`: a getter through the
/// namespace for an imported binding, else an assignment (whose name is
/// recorded).
pub open spec fn local_exports(specs: Seq<Json>, repls: Seq<(Seq<char>, Repl)>, n: nat) -> (Seq<u8>, Seq<Seq<char>>)
    decreases n,
{
    if n == 0 || n > specs.len() {
        (seq![], seq![])
    } else {
        let (text, names) = local_exports(specs, repls, (n - 1) as nat);
        match (field(specs[n - 1], "local"@), field(specs[n - 1], "exported"@)) {
            (Some(l), Some(e)) => match (export_name(l), export_name(e)) {
                (Some(ln), Some(en)) => match repl_of(repls, ln) {
                    Some(r) => (text + getter_text(en, r), names),
                    None => (text + assign_text(en, enc(ln)), names.push(en)),
                },
                _ => (text, names),
            },
            _ => (text, names),
        }
    }
}

/// The position of the first `(` in `src` at or after `from`.
pub open spec fn first_paren(src: Seq<u8>, from: nat) -> Option<nat>
    decreases src.len() - from,
{
    if from >= src.len() {
        None
    } else if src[from as int] == 0x28 {
        Some(from)
    } else {
        first_paren(src, from + 1)
    }
}

/// Deleting `[a, b)` (when `a <= b`).
pub open spec fn delete_range(a: Option<nat>, b: Option<nat>) -> Seq<EditV> {
    replace_range(a, b, seq![])
}

/// Replacing `[a, b)` (when `a <= b`) with `text`.
pub open spec fn replace_range(a: Option<nat>, b: Option<nat>, text: Seq<u8>) -> Seq<EditV> {
    match (a, b) {
        (Some(x), Some(y)) => if x <= y {
            seq![EditV { start: x, end: y, text, origin: None }]
        } else {
            seq![]
        },
        _ => seq![],
    }
}

/// The end of a node, when it fits in a `usize`.
pub open spec fn uend(j: Json) -> Option<nat> {
    match uspan(j) {
        Some((_s, e)) => Some(e),
        None => None,
    }
}

/// Rewriting an import declaration.
pub open spec fn rewrite_import(st: StmtState, stmt: Json, src: Seq<char>) -> StmtState {
    if st.emitted.contains(src) {
        StmtState { edits: st.edits + replace_node(stmt, seq![]), ..st }
    } else if specifiers_of(stmt).len() == 0 {
        StmtState {
            emitted: st.emitted.push(src),
            edits: st.edits + replace_node(stmt, require_text(src) + enc(";"@)),
            ..st
        }
    } else {
        let (var, kind) = match var_of(st.vars, src) {
            Some(x) => x,
            None => (src, ImportKind::Plain),
        };
        let init = match kind {
            ImportKind::Star => enc("__importStar("@) + require_text(src) + enc(")"@),
            ImportKind::Default => enc("__importDefault("@) + require_text(src) + enc(")"@),
            ImportKind::Plain => require_text(src),
        };
        StmtState {
            emitted: st.emitted.push(src),
            needs: Needs {
                import_star: st.needs.import_star || kind == ImportKind::Star,
                import_default: st.needs.import_default || kind == ImportKind::Default,
                ..st.needs
            },
            edits: st.edits + replace_node(
                stmt,
                enc("const "@) + enc(var) + enc(" = "@) + init + enc(";"@),
            ),
            ..st
        }
    }
}

/// Rewriting `export { … } from "<src>"`.
pub open spec fn rewrite_reexport(st: StmtState, stmt: Json, src: Seq<char>) -> StmtState {
    let (var, st2) = match var_of(st.vars, src) {
        Some((v, _k)) => (v, st),
        None => {
            let (v, used2) = module_var(src, st.used);
            (v, StmtState { vars: st.vars.push((src, v, ImportKind::Plain)), used: used2, ..st })
        },
    };
    let specs = specifiers_of(stmt);
    let head = if st2.emitted.contains(src) {
        seq![]
    } else {
        enc("const "@) + enc(var) + enc(" = "@) + require_text(src) + enc(";"@)
    };
    StmtState {
        emitted: if st2.emitted.contains(src) {
            st2.emitted
        } else {
            st2.emitted.push(src)
        },
        edits: st2.edits + replace_node(stmt, head + reexport_getters(specs, var, specs.len())),
        ..st2
    }
}

/// Rewriting `export <declaration>`: the declaration stays, each name it
/// binds is assigned to `exports`.
pub open spec fn rewrite_export_declaration(st: StmtState, stmt: Json, d: Json) -> StmtState {
    let names = declaration_names(d);
    StmtState {
        exported: st.exported + names,
        edits: st.edits + delete_range(ustart(stmt), ustart(d)) + match uend(stmt) {
            Some(e) => insertion_at(e, export_assignments(names)),
            None => seq![],
        },
        ..st
    }
}

/// An insertion of `text` at `at`.
pub open spec fn insertion_at(at: nat, text: Seq<u8>) -> Seq<EditV> {
    seq![EditV { start: at, end: at, text, origin: None }]
}

/// Rewriting `export { … }` of locals.
pub open spec fn rewrite_export_list(st: StmtState, stmt: Json, repls: Seq<(Seq<char>, Repl)>) -> StmtState {
    let specs = specifiers_of(stmt);
    let (text, names) = local_exports(specs, repls, specs.len());
    StmtState { exported: st.exported + names, edits: st.edits + replace_node(stmt, text), ..st }
}

/// Rewriting `export default <declaration or expression>`.
pub open spec fn rewrite_export_default(st: StmtState, stmt: Json, d: Json, src: Seq<u8>) -> StmtState {
    let st1 = StmtState { exported: st.exported.push("default"@), ..st };
    if is_type(d, "FunctionDeclaration"@) || is_type(d, "ClassDeclaration"@) {
        let (name, st2, naming) = default_naming(st1, d, src);
        StmtState {
            edits: st2.edits + delete_range(ustart(stmt), ustart(d)) + naming + match uend(stmt) {
                Some(e) => insertion_at(e, enc("\n"@) + assign_text("default"@, enc(name))),
                None => seq![],
            },
            ..st2
        }
    } else {
        StmtState {
            edits: st1.edits + replace_range(ustart(stmt), ustart(d), enc("exports.default = "@))
                + replace_range(uend(d), uend(stmt), enc(";"@)),
            ..st1
        }
    }
}

/// The name a default-exported function or class is assigned under: its own
/// name, or else a fresh module variable that is inserted into the
/// declaration (after `class`, or before the parameter list).
pub open spec fn default_naming(st1: StmtState, d: Json, src: Seq<u8>) -> (Seq<char>, StmtState, Seq<EditV>) {
    let id_name = match field(d, "id"@) {
        Some(id) => str_field(id, "name"@),
        None => None,
    };
    match id_name {
        Some(n) => (n, st1, seq![]),
        None => {
            let (n, used2) = module_var("default"@, st1.used);
            let at = if is_type(d, "ClassDeclaration"@) {
                match ustart(d) {
                    Some(s) => if s + 5 <= usize::MAX {
                        Some((s + 5) as nat)
                    } else {
                        None
                    },
                    None => None,
                }
            } else {
                match ustart(d) {
                    Some(s) => first_paren(src, s),
                    None => None,
                }
            };
            (
                n,
                StmtState { used: used2, ..st1 },
                match at {
                    Some(a) => insertion_at(a, enc(" "@) + enc(n)),
                    None => seq![],
                },
            )
        },
    }
}

/// Rewriting `export * from "<src>"` (or `export * as ns from "<src>"`).
pub open spec fn rewrite_export_all(st: StmtState, stmt: Json, src: Seq<char>) -> StmtState {
    let st1 = StmtState { needs: Needs { export_star: true, ..st.needs }, ..st };
    match field(stmt, "exported"@) {
        Some(e) => match export_name(e) {
            Some(name) => StmtState {
                needs: Needs { import_star: true, ..st1.needs },
                exported: st1.exported.push(name),
                edits: st1.edits + replace_node(
                    stmt,
                    assign_text(name, enc("__importStar("@) + require_text(src) + enc(")"@)),
                ),
                ..st1
            },
            None => StmtState {
                edits: st1.edits + replace_node(
                    stmt,
                    enc("__exportStar("@) + require_text(src) + enc(", exports);"@),
                ),
                ..st1
            },
        },
        None => StmtState {
            edits: st1.edits + replace_node(
                stmt,
                enc("__exportStar("@) + require_text(src) + enc(", exports);"@),
            ),
            ..st1
        },
    }
}

/// The module specifier of a declaration with a `source`.
pub open spec fn source_of(stmt: Json) -> Option<Seq<char>> {
    match field(stmt, "source"@) {
        Some(s) => str_field(s, "value"@),
        None => None,
    }
}

/// Rewriting one top-level statement.
pub open spec fn stmt_step(st: StmtState, repls: Seq<(Seq<char>, Repl)>, src: Seq<u8>, stmt: Json) -> StmtState {
    if is_type(stmt, "ImportDeclaration"@) {
        match source_of(stmt) {
            Some(s) => rewrite_import(st, stmt, s),
            None => st,
        }
    } else if is_type(stmt, "ExportNamedDeclaration"@) {
        if !is_null_field(stmt, "source"@) {
            match source_of(stmt) {
                Some(s) => rewrite_reexport(st, stmt, s),
                None => st,
            }
        } else {
            match exported_declaration(stmt) {
                Some(d) => rewrite_export_declaration(st, stmt, d),
                None => rewrite_export_list(st, stmt, repls),
            }
        }
    } else if is_type(stmt, "ExportDefaultDeclaration"@) {
        match field(stmt, "declaration"@) {
            Some(d) => rewrite_export_default(st, stmt, d, src),
            None => st,
        }
    } else if is_type(stmt, "ExportAllDeclaration"@) {
        match source_of(stmt) {
            Some(s) => rewrite_export_all(st, stmt, s),
            None => st,
        }
    } else {
        st
    }
}

/// Rewriting `body[..n]`.
pub open spec fn stmt_scan(st: StmtState, repls: Seq<(Seq<char>, Repl)>, src: Seq<u8>, body: Seq<Json>, n: nat) -> StmtState
    decreases n,
{
    if n == 0 || n > body.len() {
        st
    } else {
        stmt_step(stmt_scan(st, repls, src, body, (n - 1) as nat), repls, src, body[n - 1])
    }
}

/// `export * as N from S` becomes `exports.N = __importStar(require(S));`
/// in place of the statement: `exports.N` is the namespace object of `S`
/// (and `N` is declared up front), and nothing of `S` is spread onto
/// `exports`.
pub proof fn lemma_namespace_reexport(
    st: StmtState,
    repls: Seq<(Seq<char>, Repl)>,
    src: Seq<u8>,
    stmt: Json,
    e: Json,
    name: Seq<char>,
    s: Seq<char>,
    start: nat,
    end: nat,
)
    requires
        is_type(stmt, "ExportAllDeclaration"@),
        source_of(stmt) == Some(s),
        field(stmt, "exported"@) == Some(e),
        export_name(e) == Some(name),
        uspan(stmt) == Some((start, end)),
    ensures
        ({
            let r = stmt_step(st, repls, src, stmt);
            &&& r.edits == st.edits.push(
                EditV {
                    start,
                    end,
                    text: enc("exports."@) + enc(name) + enc(" = "@) + enc("__importStar("@) + enc("require("@)
                        + js_string(enc(s)) + enc(")"@) + enc(")"@) + enc(";"@),
                    origin: None,
                },
            )
            &&& r.needs.import_star
            &&& r.exported == st.exported.push(name)
        }),
{
    reveal_strlit("ExportAllDeclaration");
    reveal_strlit("ImportDeclaration");
    reveal_strlit("ExportNamedDeclaration");
    reveal_strlit("ExportDefaultDeclaration");
    assert("ExportAllDeclaration"@ != "ImportDeclaration"@ && "ExportAllDeclaration"@ != "ExportNamedDeclaration"@
        && "ExportAllDeclaration"@ != "ExportDefaultDeclaration"@) by {
        assert("ExportAllDeclaration"@[0] != "ImportDeclaration"@[0]);
        assert("ExportAllDeclaration"@[6] != "ExportNamedDeclaration"@[6]);
        assert("ExportAllDeclaration"@[6] != "ExportDefaultDeclaration"@[6]);
    }
    let lhs = assign_text(name, enc("__importStar("@) + require_text(s) + enc(")"@));
    let rhs = enc("exports."@) + enc(name) + enc(" = "@) + enc("__importStar("@) + enc("require("@) + js_string(
        enc(s),
    ) + enc(")"@) + enc(")"@) + enc(";"@);
    assert(lhs =~= rhs);
    assert(replace_node(stmt, lhs) == seq![EditV { start, end, text: lhs, origin: None }]);
    assert(st.edits + seq![EditV { start, end, text: lhs, origin: None }] =~= st.edits.push(
        EditV { start, end, text: lhs, origin: None },
    ));
}

/// `export * from S` becomes `__exportStar(require(S), exports);` in place
/// of the statement: the exports of `S` are copied onto `exports`, and no
/// name of this module is declared for it.
pub proof fn lemma_star_reexport(
    st: StmtState,
    repls: Seq<(Seq<char>, Repl)>,
    src: Seq<u8>,
    stmt: Json,
    s: Seq<char>,
    start: nat,
    end: nat,
)
    requires
        is_type(stmt, "ExportAllDeclaration"@),
        source_of(stmt) == Some(s),
        field(stmt, "exported"@) is None,
        uspan(stmt) == Some((start, end)),
    ensures
        ({
            let r = stmt_step(st, repls, src, stmt);
            &&& r.edits == st.edits.push(
                EditV {
                    start,
                    end,
                    text: enc("__exportStar("@) + enc("require("@) + js_string(enc(s)) + enc(")"@) + enc(
                        ", exports);"@,
                    ),
                    origin: None,
                },
            )
            &&& r.needs.export_star
            &&& r.exported == st.exported
        }),
{
    reveal_strlit("ExportAllDeclaration");
    reveal_strlit("ImportDeclaration");
    reveal_strlit("ExportNamedDeclaration");
    reveal_strlit("ExportDefaultDeclaration");
    assert("ExportAllDeclaration"@ != "ImportDeclaration"@ && "ExportAllDeclaration"@ != "ExportNamedDeclaration"@
        && "ExportAllDeclaration"@ != "ExportDefaultDeclaration"@) by {
        assert("ExportAllDeclaration"@[0] != "ImportDeclaration"@[0]);
        assert("ExportAllDeclaration"@[6] != "ExportNamedDeclaration"@[6]);
        assert("ExportAllDeclaration"@[6] != "ExportDefaultDeclaration"@[6]);
    }
    let lhs = enc("__exportStar("@) + require_text(s) + enc(", exports);"@);
    let rhs = enc("__exportStar("@) + enc("require("@) + js_string(enc(s)) + enc(")"@) + enc(", exports);"@);
    assert(lhs =~= rhs);
    assert(replace_node(stmt, lhs) == seq![EditV { start, end, text: lhs, origin: None }]);
    assert(st.edits + seq![EditV { start, end, text: lhs, origin: None }] =~= st.edits.push(
        EditV { start, end, text: lhs, origin: None },
    ));
}

/// Rewriting a statement keeps what the statements before it gave: their
/// edits and exported names stay in front, and a helper once needed stays
/// needed.
proof fn lemma_step_extends(st: StmtState, repls: Seq<(Seq<char>, Repl)>, src: Seq<u8>, stmt: Json)
    ensures
        ({
            let r = stmt_step(st, repls, src, stmt);
            &&& st.edits.len() <= r.edits.len() && r.edits.subrange(0, st.edits.len() as int) == st.edits
            &&& st.exported.len() <= r.exported.len() && r.exported.subrange(0, st.exported.len() as int)
                == st.exported
            &&& st.needs.import_star ==> r.needs.import_star
        }),
{
    let r = stmt_step(st, repls, src, stmt);
    assert(r.edits.subrange(0, st.edits.len() as int) =~= st.edits);
    assert(r.exported.subrange(0, st.exported.len() as int) =~= st.exported);
}

/// Whether a statement is ES module syntax.
pub open spec fn is_module_syntax(stmt: Json) -> bool {
    is_type(stmt, "ImportDeclaration"@) || is_type(stmt, "ExportNamedDeclaration"@) || is_type(
        stmt,
        "ExportDefaultDeclaration"@,
    ) || is_type(stmt, "ExportAllDeclaration"@)
}

/// Whether one of `body[..n]` is ES module syntax.
pub open spec fn has_module_syntax(body: Seq<Json>, n: nat) -> bool
    decreases n,
{
    if n == 0 || n > body.len() {
        false
    } else {
        has_module_syntax(body, (n - 1) as nat) || is_module_syntax(body[n - 1])
    }
}

/// `exports.<last> = … = exports.<first> = void 0`.
pub open spec fn void0_chain(names: Seq<Seq<char>>) -> Seq<u8>
    decreases names.len(),
{
    if names.len() == 0 {
        enc("void 0"@)
    } else {
        enc("exports."@) + enc(names.last()) + enc(" = "@) + void0_chain(names.drop_last())
    }
}

/// The header: the `__esModule` marker (for an ES module) and the
/// `void 0` initialization of the exported names.
pub open spec fn header_text(esm: bool, exported: Seq<Seq<char>>) -> Seq<u8> {
    (if esm {
        enc("Object.defineProperty(exports, \"__esModule\", { value: true });"@)
    } else {
        seq![]
    }) + (if exported.len() > 0 {
        void0_chain(exported) + enc(";"@)
    } else {
        seq![]
    })
}

/// The reference rewriting of a module with text `src`, tree `program` and
/// bindings `table`: imported and exported bindings routed through their
/// namespaces, live bindings mirrored, dynamic `import()` made a `require`.
pub open spec fn ref_rewrite(src: Seq<u8>, program: Json, table: Seq<Symbol>) -> RefView {
    let body = crate::resources::body_of(program);
    let aggs = aggregate(body, body.len());
    let (vars, used) = assign_vars(aggs, seq![], aggs.len());
    let repls = import_repls(body, vars, body.len());
    let routes = import_routes(body, repls, body.len()) + export_routes(body, body.len());
    let live = live_exports(body, module_lets(body, body.len()), body.len());
    let rv0 = RefView {
        routes: ref_routes(table, routes, table.len()),
        live: ref_live(table, live, table.len()),
        claimed: seq![],
        stmt_level: seq![],
        star: false,
        src,
        edits: seq![],
    };
    crate::walk::run::<RefRewriter>(rv0, crate::walk::events(program))
}

/// Statements that are not ES module syntax are left to the reference
/// rewriting.
proof fn lemma_scan_without_module_syntax(
    st: StmtState,
    repls: Seq<(Seq<char>, Repl)>,
    src: Seq<u8>,
    body: Seq<Json>,
    n: nat,
)
    requires
        n <= body.len(),
        !has_module_syntax(body, n),
    ensures
        stmt_scan(st, repls, src, body, n) == st,
    decreases n,
{
    if n > 0 {
        lemma_scan_without_module_syntax(st, repls, src, body, (n - 1) as nat);
    }
}

/// A module without `import`/`export` syntax stays a CommonJS module: it is
/// not converted (so it gets no `"use strict"` and no `__esModule`
/// marker), no statement of it is rewritten and no header is inserted;
/// only its references (a dynamic `import()`) are rewritten, and the only
/// helper it can need is `__importStar`.
pub proof fn lemma_commonjs_module_not_converted(src: Seq<u8>, program: Json, table: Seq<Symbol>)
    requires
        !has_module_syntax(crate::resources::body_of(program), crate::resources::body_of(program).len()),
    ensures
        !cjs_rewrite(src, program, table).2,
        cjs_rewrite(src, program, table).0 == ref_rewrite(src, program, table).edits,
        cjs_rewrite(src, program, table).1 == (Needs {
            import_default: false,
            import_star: ref_rewrite(src, program, table).star,
            export_star: false,
        }),
{
    let body = crate::resources::body_of(program);
    let aggs = aggregate(body, body.len());
    let (vars, used) = assign_vars(aggs, seq![], aggs.len());
    let repls = import_repls(body, vars, body.len());
    let st0 = StmtState {
        vars,
        used,
        emitted: seq![],
        exported: seq![],
        needs: Needs { import_default: false, import_star: false, export_star: false },
        edits: seq![],
    };
    lemma_scan_without_module_syntax(st0, repls, src, body, body.len());
    assert(header_text(false, seq![]) =~= Seq::<u8>::empty());
    let rv = ref_rewrite(src, program, table);
    assert(seq![] + rv.edits + Seq::<EditV>::empty() =~= rv.edits);
}

/// One statement's rewriting requires a module only if it was not required
/// before.
proof fn lemma_step_required_once(
    st: StmtState,
    repls: Seq<(Seq<char>, Repl)>,
    src: Seq<u8>,
    stmt: Json,
)
    requires
        st.emitted.no_duplicates(),
    ensures
        stmt_step(st, repls, src, stmt).emitted.no_duplicates(),
{
    let next = stmt_step(st, repls, src, stmt);
    assert forall|s: Seq<Seq<char>>, x: Seq<char>|
        s.no_duplicates() && !s.contains(x) implies #[trigger] s.push(x).no_duplicates() by {
        assert forall|i: int, j: int| 0 <= i < s.push(x).len() && 0 <= j < s.push(x).len() && i != j implies
            s.push(x)[i] != s.push(x)[j] by {
            if i < s.len() && j < s.len() {
                assert(s.push(x)[i] == s[i] && s.push(x)[j] == s[j]);
            } else if i < s.len() {
                assert(s.push(x)[i] == s[i]);
                assert(s.contains(s[i]));
            } else if j < s.len() {
                assert(s.push(x)[j] == s[j]);
                assert(s.contains(s[j]));
            }
        }
    }
    if is_type(stmt, "ExportDefaultDeclaration"@) {
        match field(stmt, "declaration"@) {
            Some(d) => {
                let st1 = StmtState { exported: st.exported.push("default"@), ..st };
                assert(default_naming(st1, d, src).1.emitted == st.emitted);
            },
            None => {},
        }
    }
}

/// Each module is required at most once by the statement rewriting: from a
/// state whose required modules are distinct, the rewriting of `body[..n]`
/// requires only modules not required before.
pub proof fn lemma_required_once(
    st: StmtState,
    repls: Seq<(Seq<char>, Repl)>,
    src: Seq<u8>,
    body: Seq<Json>,
    n: nat,
)
    requires
        st.emitted.no_duplicates(),
    ensures
        stmt_scan(st, repls, src, body, n).emitted.no_duplicates(),
    decreases n,
{
    if n > 0 && n <= body.len() {
        lemma_required_once(st, repls, src, body, (n - 1) as nat);
        lemma_step_required_once(stmt_scan(st, repls, src, body, (n - 1) as nat), repls, src, body[n - 1]);
    }
}

/// The ESM→CJS rewrite of a module with text `src`, tree `program` and
/// bindings `table`: its edits, the helpers it needs, and whether the
/// module was converted.
pub open spec fn cjs_rewrite(src: Seq<u8>, program: Json, table: Seq<Symbol>) -> (Seq<EditV>, Needs, bool) {
    let body = crate::resources::body_of(program);
    let aggs = aggregate(body, body.len());
    let (vars, used) = assign_vars(aggs, seq![], aggs.len());
    let repls = import_repls(body, vars, body.len());
    let routes = import_routes(body, repls, body.len()) + export_routes(body, body.len());
    let rv = ref_rewrite(src, program, table);
    let st0 = StmtState {
        vars,
        used,
        emitted: seq![],
        exported: seq![],
        needs: Needs { import_default: false, import_star: false, export_star: false },
        edits: seq![],
    };
    let st = stmt_scan(st0, repls, src, body, body.len());
    let esm = has_module_syntax(body, body.len());
    let header = header_text(esm, st.exported);
    let header_edits = if header.len() > 0 {
        insertion_at(hoist_point(body, src.len()), header)
    } else {
        seq![]
    };
    (
        header_edits + rv.edits + st.edits,
        Needs { import_star: st.needs.import_star || rv.star, ..st.needs },
        esm,
    )
}

/// Rewriting more statements keeps what the earlier ones gave.
proof fn lemma_scan_extends(
    st: StmtState,
    repls: Seq<(Seq<char>, Repl)>,
    src: Seq<u8>,
    body: Seq<Json>,
    m: nat,
    n: nat,
)
    requires
        m <= n <= body.len(),
    ensures
        ({
            let a = stmt_scan(st, repls, src, body, m);
            let b = stmt_scan(st, repls, src, body, n);
            &&& a.edits.len() <= b.edits.len() && b.edits.subrange(0, a.edits.len() as int) == a.edits
            &&& a.needs.import_star ==> b.needs.import_star
        }),
    decreases n - m,
{
    if m < n {
        lemma_scan_extends(st, repls, src, body, m, (n - 1) as nat);
        let a = stmt_scan(st, repls, src, body, m);
        let c = stmt_scan(st, repls, src, body, (n - 1) as nat);
        let b = stmt_scan(st, repls, src, body, n);
        lemma_step_extends(c, repls, src, body[n - 1]);
        assert(b.edits.subrange(0, a.edits.len() as int) =~= c.edits.subrange(0, a.edits.len() as int));
    }
}

/// In a converted module, every `export * as N from S` among its
/// top-level statements is replaced by `exports.N = __importStar(require(S));`
/// and the `__importStar` helper is asked for.
pub proof fn lemma_module_namespace_reexports(
    src: Seq<u8>,
    program: Json,
    table: Seq<Symbol>,
    i: int,
    e: Json,
    name: Seq<char>,
    s: Seq<char>,
    start: nat,
    end: nat,
)
    requires
        0 <= i < crate::resources::body_of(program).len(),
        is_type(crate::resources::body_of(program)[i], "ExportAllDeclaration"@),
        source_of(crate::resources::body_of(program)[i]) == Some(s),
        field(crate::resources::body_of(program)[i], "exported"@) == Some(e),
        export_name(e) == Some(name),
        uspan(crate::resources::body_of(program)[i]) == Some((start, end)),
    ensures
        cjs_rewrite(src, program, table).0.contains(
            EditV {
                start,
                end,
                text: enc("exports."@) + enc(name) + enc(" = "@) + enc("__importStar("@) + enc("require("@)
                    + js_string(enc(s)) + enc(")"@) + enc(")"@) + enc(";"@),
                origin: None,
            },
        ),
        cjs_rewrite(src, program, table).1.import_star,
{
    let body = crate::resources::body_of(program);
    let aggs = aggregate(body, body.len());
    let (vars, used) = assign_vars(aggs, seq![], aggs.len());
    let repls = import_repls(body, vars, body.len());
    let rv = ref_rewrite(src, program, table);
    let st0 = StmtState {
        vars,
        used,
        emitted: seq![],
        exported: seq![],
        needs: Needs { import_default: false, import_star: false, export_star: false },
        edits: seq![],
    };
    let edit = EditV {
        start,
        end,
        text: enc("exports."@) + enc(name) + enc(" = "@) + enc("__importStar("@) + enc("require("@) + js_string(
            enc(s),
        ) + enc(")"@) + enc(")"@) + enc(";"@),
        origin: None,
    };
    let sti = stmt_scan(st0, repls, src, body, i as nat);
    let sti1 = stmt_scan(st0, repls, src, body, (i + 1) as nat);
    lemma_namespace_reexport(sti, repls, src, body[i], e, name, s, start, end);
    assert(sti1.edits[sti.edits.len() as int] == edit);
    lemma_scan_extends(st0, repls, src, body, (i + 1) as nat, body.len());
    let st = stmt_scan(st0, repls, src, body, body.len());
    assert(st.edits.subrange(0, sti1.edits.len() as int)[sti.edits.len() as int] == edit);
    assert(st.edits[sti.edits.len() as int] == edit);
    let (all, needs, _) = cjs_rewrite(src, program, table);
    let esm = has_module_syntax(body, body.len());
    let header = header_text(esm, st.exported);
    let header_edits = if header.len() > 0 {
        insertion_at(hoist_point(body, src.len()), header)
    } else {
        seq![]
    };
    assert(all == header_edits + rv.edits + st.edits);
    let k = (header_edits.len() + rv.edits.len() + sti.edits.len()) as int;
    assert(all[k] == edit);
}

/// The statement rewriting's executable state.
struct StmtRewriter {
    vars: Vec<(String, String, ImportKind)>,
    used: Vec<(String, usize)>,
    emitted: Vec<String>,
    exported: Vec<String>,
    needs: Needs,
    edits: Vec<Edit>,
}

impl View for StmtRewriter {
    type V = StmtState;

    closed spec fn view(&self) -> StmtState {
        StmtState {
            vars: vars_view(self.vars@),
            used: used_views(self.used@),
            emitted: string_views(self.emitted@),
            exported: string_views(self.exported@),
            needs: self.needs,
            edits: crate::text::edit_views(self.edits@),
        }
    }
}

/// Append `require_text(src)` to `out`.
fn push_require(out: &mut Vec<u8>, src: &String)
    ensures
        final(out)@ == old(out)@ + require_text(src@),
{
    push_str(out, "require(");
    push_js_string(out, src.as_str().as_bytes());
    push_str(out, ")");
}

/// Append `getter_text(name, <ns, member>)` to `out`.
fn push_getter(out: &mut Vec<u8>, name: &String, ns: &String, member: &String)
    ensures
        final(out)@ == old(out)@ + getter_text(name@, Repl { ns: ns@, member: member@ }),
{
    push_str(out, "Object.defineProperty(exports, ");
    push_js_string(out, name.as_str().as_bytes());
    push_str(out, ", { enumerable: true, configurable: true, get: () => ");
    push_member(out, ns, member);
    push_str(out, " });");
}

/// Append `assign_text(name, value)` to `out`.
fn push_assign(out: &mut Vec<u8>, name: &String, value: &[u8])
    ensures
        final(out)@ == old(out)@ + assign_text(name@, value@),
{
    push_str(out, "exports.");
    push_str(out, name.as_str());
    push_str(out, " = ");
    push_bytes(out, value);
    push_str(out, ";");
}

/// The UTF-8 bytes of a text.
fn text_bytes(s: &String) -> (r: Vec<u8>)
    ensures
        r@ == enc(s@),
{
    let mut out: Vec<u8> = Vec::new();
    push_str(&mut out, s.as_str());
    assert(out@ =~= enc(s@));
    out
}

/// See [`declaration_names`].
fn declaration_names_of(d: &Json) -> (r: Vec<String>)
    ensures
        string_views(r@) == declaration_names(*d),
{
    let mut out: Vec<String> = Vec::new();
    if has_type(d, "VariableDeclaration") {
        let mut bs: Vec<(String, usize)> = Vec::new();
        push_var_binders(&mut bs, d);
        assert(used_views(bs@) =~= seq![] + var_binders(*d));
        let ghost names = var_binders(*d).map_values(|b: (Seq<char>, nat)| b.0);
        let mut k: usize = 0;
        while k < bs.len()
            invariant
                k <= bs@.len(),
                used_views(bs@) == var_binders(*d),
                names == var_binders(*d).map_values(|b: (Seq<char>, nat)| b.0),
                string_views(out@) == names.subrange(0, k as int),
            decreases bs@.len() - k,
        {
            let ghost before = string_views(out@);
            out.push(bs[k].0.clone());
            assert(used_views(bs@)[k as int].0 == bs@[k as int].0@);
            assert(string_views(out@) =~= before.push(names[k as int]));
            assert(names.subrange(0, k + 1 as int) =~= names.subrange(0, k as int).push(
                names[k as int],
            ));
            k = k + 1;
        }
        assert(names.subrange(0, bs@.len() as int) =~= names);
    } else if has_type(d, "FunctionDeclaration") || has_type(d, "ClassDeclaration") {
        match get(d, "id") {
            Some(id) => match get_str(id, "name") {
                Some(n) => {
                    out.push(n.clone());
                    assert(string_views(out@) =~= seq![n@]);
                },
                None => {
                    assert(string_views(out@) =~= seq![]);
                },
            },
            None => {
                assert(string_views(out@) =~= seq![]);
            },
        }
    } else {
        assert(string_views(out@) =~= seq![]);
    }
    out
}

/// See [`export_assignments`].
fn export_assignments_of(names: &Vec<String>) -> (r: Vec<u8>)
    ensures
        r@ == export_assignments(string_views(names@)),
{
    let ghost nv = string_views(names@);
    let mut out: Vec<u8> = Vec::new();
    let mut i: usize = 0;
    while i < names.len()
        invariant
            nv == string_views(names@),
            i <= nv.len(),
            out@ == export_assignments(nv.subrange(0, i as int)),
        decreases nv.len() - i,
    {
        push_str(&mut out, "\n");
        let value = text_bytes(&names[i]);
        push_assign(&mut out, &names[i], value.as_slice());
        let ghost pre = nv.subrange(0, i + 1 as int);
        assert(pre.drop_last() =~= nv.subrange(0, i as int));
        assert(pre.last() == nv[i as int]);
        i = i + 1;
    }
    assert(nv.subrange(0, nv.len() as int) =~= nv);
    out
}

/// See [`reexport_getters`].
fn reexport_getters_of(specs: &Vec<Json>, ns: &String) -> (r: Vec<u8>)
    ensures
        r@ == reexport_getters(specs@, ns@, specs@.len()),
{
    let mut out: Vec<u8> = Vec::new();
    let mut i: usize = 0;
    while i < specs.len()
        invariant
            i <= specs@.len(),
            out@ == reexport_getters(specs@, ns@, i as nat),
        decreases specs@.len() - i,
    {
        let ghost before = out@;
        match (get(&specs[i], "local"), get(&specs[i], "exported")) {
            (Some(l), Some(e)) => match (get_export_name(l), get_export_name(e)) {
                (Some(ln), Some(en)) => push_getter(&mut out, en, ns, ln),
                _ => {
                    assert(before + seq![] =~= before);
                },
            },
            _ => {
                assert(before + seq![] =~= before);
            },
        }
        i = i + 1;
    }
    out
}

/// See [`local_exports`].
fn local_exports_of(specs: &Vec<Json>, repls: &Vec<(String, (String, String))>) -> (r: (Vec<u8>, Vec<String>))
    ensures
        (r.0@, string_views(r.1@)) == local_exports(specs@, repls_view(repls@), specs@.len()),
{
    let ghost rv = repls_view(repls@);
    let mut text: Vec<u8> = Vec::new();
    let mut names: Vec<String> = Vec::new();
    assert(string_views(names@) =~= seq![]);
    let mut i: usize = 0;
    while i < specs.len()
        invariant
            rv == repls_view(repls@),
            i <= specs@.len(),
            (text@, string_views(names@)) == local_exports(specs@, rv, i as nat),
        decreases specs@.len() - i,
    {
        match (get(&specs[i], "local"), get(&specs[i], "exported")) {
            (Some(l), Some(e)) => match (get_export_name(l), get_export_name(e)) {
                (Some(ln), Some(en)) => match repl_lookup(repls, ln) {
                    Some((ns, member)) => push_getter(&mut text, en, &ns, &member),
                    None => {
                        let value = text_bytes(ln);
                        push_assign(&mut text, en, value.as_slice());
                        let ghost before = string_views(names@);
                        names.push(en.clone());
                        assert(string_views(names@) =~= before.push(en@));
                    },
                },
                _ => {},
            },
            _ => {},
        }
        i = i + 1;
    }
    (text, names)
}

/// See [`first_paren`].
fn get_first_paren(src: &Vec<u8>, from: usize) -> (r: Option<usize>)
    ensures
        match r {
            Some(p) => first_paren(src@, from as nat) == Some(p as nat),
            None => first_paren(src@, from as nat) is None,
        },
{
    let mut i: usize = from;
    while i < src.len()
        invariant
            from <= i,
            first_paren(src@, from as nat) == first_paren(src@, i as nat),
        decreases src@.len() - i,
    {
        if src[i] == 0x28 {
            return Some(i);
        }
        i = i + 1;
    }
    None
}

/// See [`source_of`].
fn get_source_of<'a>(stmt: &'a Json) -> (r: Option<&'a String>)
    ensures
        match r {
            Some(s) => source_of(*stmt) == Some(s@),
            None => source_of(*stmt) is None,
        },
{
    match get(stmt, "source") {
        Some(s) => get_str(s, "value"),
        None => None,
    }
}

/// Edits of one optional range.
fn range_edit(a: Option<usize>, b: Option<usize>, text: Vec<u8>) -> (r: Vec<Edit>)
    ensures
        crate::text::edit_views(r@) == replace_range(
            match a {
                Some(x) => Some(x as nat),
                None => None,
            },
            match b {
                Some(x) => Some(x as nat),
                None => None,
            },
            text@,
        ),
{
    let mut out: Vec<Edit> = Vec::new();
    match (a, b) {
        (Some(x), Some(y)) => {
            if x <= y {
                let e = Edit { start: x, end: y, text, origin: None };
                let ghost ev = e@;
                out.push(e);
                assert(crate::text::edit_views(out@) =~= seq![ev]);
            } else {
                assert(crate::text::edit_views(out@) =~= seq![]);
            }
        },
        _ => {
            assert(crate::text::edit_views(out@) =~= seq![]);
        },
    }
    out
}

/// The end of a node.
fn get_uend(j: &Json) -> (r: Option<usize>)
    ensures
        match r {
            Some(e) => uend(*j) == Some(e as nat),
            None => uend(*j) is None,
        },
{
    match get_span(j) {
        Some((_s, e)) => Some(e),
        None => None,
    }
}

impl StmtRewriter {
    fn add(&mut self, more: Vec<Edit>)
        ensures
            final(self)@ == (StmtState {
                edits: old(self)@.edits + crate::text::edit_views(more@),
                ..old(self)@
            }),
    {
        append_edits(&mut self.edits, more);
    }

    fn emit(&mut self, src: &String)
        ensures
            final(self)@ == (StmtState { emitted: old(self)@.emitted.push(src@), ..old(self)@ }),
    {
        let ghost e = string_views(self.emitted@);
        self.emitted.push(src.clone());
        assert(string_views(self.emitted@) =~= e.push(src@));
    }

    /// See [`rewrite_import`].
    fn rewrite_import(&mut self, stmt: &Json, src: &String)
        ensures
            final(self)@ == rewrite_import(old(self)@, *stmt, src@),
    {
        if contains_string(&self.emitted, src) {
            let more = replace_node_of(stmt, Vec::new());
            self.add(more);
            return;
        }
        let has_specs = match get_arr(stmt, "specifiers") {
            Some(sp) => sp.len() > 0,
            None => false,
        };
        if !has_specs {
            let mut t: Vec<u8> = Vec::new();
            push_require(&mut t, src);
            push_str(&mut t, ";");
            self.emit(src);
            let more = replace_node_of(stmt, t);
            self.add(more);
            return;
        }
        let (var, kind) = match var_lookup(&self.vars, src.as_str()) {
            Some(x) => x,
            None => (src.clone(), ImportKind::Plain),
        };
        let mut init: Vec<u8> = Vec::new();
        match kind {
            ImportKind::Star => {
                push_str(&mut init, "__importStar(");
                push_require(&mut init, src);
                push_str(&mut init, ")");
                self.needs.import_star = true;
            },
            ImportKind::Default => {
                push_str(&mut init, "__importDefault(");
                push_require(&mut init, src);
                push_str(&mut init, ")");
                self.needs.import_default = true;
            },
            ImportKind::Plain => {
                push_require(&mut init, src);
            },
        }
        let mut t: Vec<u8> = Vec::new();
        push_str(&mut t, "const ");
        push_str(&mut t, var.as_str());
        push_str(&mut t, " = ");
        push_bytes(&mut t, init.as_slice());
        push_str(&mut t, ";");
        self.emit(src);
        let more = replace_node_of(stmt, t);
        self.add(more);
    }

    /// See [`rewrite_reexport`].
    fn rewrite_reexport(&mut self, stmt: &Json, src: &String)
        ensures
            final(self)@ == rewrite_reexport(old(self)@, *stmt, src@),
    {
        let var: String = match var_lookup(&self.vars, src.as_str()) {
            Some((v, _k)) => v,
            None => {
                let v = unique_module_var(src.as_str(), &mut self.used);
                let ghost vv = vars_view(self.vars@);
                self.vars.push((src.clone(), v.clone(), ImportKind::Plain));
                assert(vars_view(self.vars@) =~= vv.push((src@, v@, ImportKind::Plain)));
                v
            },
        };
        let empty: Vec<Json> = Vec::new();
        let specs = get_specs(stmt, &empty);
        let mut t: Vec<u8> = Vec::new();
        if !contains_string(&self.emitted, src) {
            push_str(&mut t, "const ");
            push_str(&mut t, var.as_str());
            push_str(&mut t, " = ");
            push_require(&mut t, src);
            push_str(&mut t, ";");
            self.emit(src);
        }
        let getters = reexport_getters_of(specs, &var);
        push_bytes(&mut t, getters.as_slice());
        let more = replace_node_of(stmt, t);
        self.add(more);
    }

    /// See [`rewrite_export_declaration`].
    fn rewrite_export_declaration(&mut self, stmt: &Json, d: &Json)
        ensures
            final(self)@ == rewrite_export_declaration(old(self)@, *stmt, *d),
    {
        let names = declaration_names_of(d);
        let ghost ex = string_views(self.exported@);
        let ghost st0 = self@;
        let a = get_ustart(stmt);
        let b = get_ustart(d);
        let mut more = range_edit(a, b, Vec::new());
        assert(crate::text::edit_views(more@) == delete_range(ustart(*stmt), ustart(*d)));
        match get_uend(stmt) {
            Some(e) => {
                let t = export_assignments_of(&names);
                let ed = Edit { start: e, end: e, text: t, origin: None };
                let ghost ev = ed@;
                let ghost m = crate::text::edit_views(more@);
                more.push(ed);
                assert(crate::text::edit_views(more@) =~= m + seq![ev]);
            },
            None => {
                let ghost m = crate::text::edit_views(more@);
                assert(m + seq![] =~= m);
            },
        }
        let ghost mv = crate::text::edit_views(more@);
        assert(mv == delete_range(ustart(*stmt), ustart(*d)) + match uend(*stmt) {
            Some(e) => insertion_at(e, export_assignments(declaration_names(*d))),
            None => seq![],
        });
        let mut ns = names;
        self.exported.append(&mut ns);
        assert(string_views(self.exported@) =~= ex + declaration_names(*d));
        self.add(more);
        assert(self@.edits =~= st0.edits + delete_range(ustart(*stmt), ustart(*d)) + match uend(
            *stmt,
        ) {
            Some(e) => insertion_at(e, export_assignments(declaration_names(*d))),
            None => seq![],
        });
    }

    /// See [`rewrite_export_list`].
    fn rewrite_export_list(&mut self, stmt: &Json, repls: &Vec<(String, (String, String))>)
        ensures
            final(self)@ == rewrite_export_list(old(self)@, *stmt, repls_view(repls@)),
    {
        let empty: Vec<Json> = Vec::new();
        let specs = get_specs(stmt, &empty);
        let (t, names) = local_exports_of(specs, repls);
        let ghost ex = string_views(self.exported@);
        let ghost nv = string_views(names@);
        let mut ns = names;
        self.exported.append(&mut ns);
        assert(string_views(self.exported@) =~= ex + nv);
        let more = replace_node_of(stmt, t);
        self.add(more);
    }

    /// See [`default_naming`].
    fn default_naming(&mut self, d: &Json, src: &Vec<u8>) -> (r: (String, Vec<Edit>))
        ensures
            (r.0@, final(self)@, crate::text::edit_views(r.1@)) == default_naming(old(self)@, *d, src@),
    {
        let id_name: Option<&String> = match get(d, "id") {
            Some(id) => get_str(id, "name"),
            None => None,
        };
        match id_name {
            Some(n) => {
                let naming: Vec<Edit> = Vec::new();
                assert(crate::text::edit_views(naming@) =~= seq![]);
                (n.clone(), naming)
            },
            None => {
                let ghost st1 = self@;
                let n = unique_module_var("default", &mut self.used);
                assert(self@ == (StmtState { used: module_var("default"@, st1.used).1, ..st1 }));
                let at: Option<usize> = if has_type(d, "ClassDeclaration") {
                    match get_ustart(d) {
                        Some(st) => if st <= usize::MAX - 5 {
                            Some(st + 5)
                        } else {
                            None
                        },
                        None => None,
                    }
                } else {
                    match get_ustart(d) {
                        Some(st) => get_first_paren(src, st),
                        None => None,
                    }
                };
                let mut naming: Vec<Edit> = Vec::new();
                match at {
                    Some(a) => {
                        let mut t: Vec<u8> = Vec::new();
                        push_str(&mut t, " ");
                        push_str(&mut t, n.as_str());
                        let ed = Edit { start: a, end: a, text: t, origin: None };
                        naming.push(ed);
                        assert(crate::text::edit_views(naming@) =~= insertion_at(a as nat, enc(" "@) + enc(n@)));
                    },
                    None => {
                        assert(crate::text::edit_views(naming@) =~= seq![]);
                    },
                }
                (n, naming)
            },
        }
    }

    /// See [`rewrite_export_default`].
    fn rewrite_export_default(&mut self, stmt: &Json, d: &Json, src: &Vec<u8>)
        ensures
            final(self)@ == rewrite_export_default(old(self)@, *stmt, *d, src@),
    {
        let ghost st0 = self@;
        let ghost ex = string_views(self.exported@);
        self.exported.push("default".to_string());
        assert(string_views(self.exported@) =~= ex.push("default"@));
        if has_type(d, "FunctionDeclaration") || has_type(d, "ClassDeclaration") {
            let mut more = range_edit(get_ustart(stmt), get_ustart(d), Vec::new());
            let ghost st1 = self@;
            let (name, naming) = self.default_naming(d, src);
            let ghost st2 = self@;
            let ghost del = crate::text::edit_views(more@);
            assert(del == delete_range(ustart(*stmt), ustart(*d)));
            assert(st2 == default_naming(st1, *d, src@).1);
            let ghost nv = crate::text::edit_views(naming@);
            append_edits(&mut more, naming);
            assert(crate::text::edit_views(more@) =~= del + nv);
            let ghost before_tail = crate::text::edit_views(more@);
            match get_uend(stmt) {
                Some(e) => {
                    let mut t: Vec<u8> = Vec::new();
                    push_str(&mut t, "\n");
                    let value = text_bytes(&name);
                    let dflt = "default".to_string();
                    proof {
                        reveal_strlit("default");
                    }
                    push_assign(&mut t, &dflt, value.as_slice());
                    assert(t@ == enc("\n"@) + assign_text("default"@, enc(name@)));
                    let ed = Edit { start: e, end: e, text: t, origin: None };
                    let ghost ev = ed@;
                    more.push(ed);
                    assert(crate::text::edit_views(more@) =~= before_tail + seq![ev]);
                },
                None => {
                    assert(before_tail + seq![] =~= before_tail);
                },
            }
            let ghost mv = crate::text::edit_views(more@);
            assert(mv == delete_range(ustart(*stmt), ustart(*d)) + nv + match uend(*stmt) {
                Some(e) => insertion_at(e, enc("\n"@) + assign_text("default"@, enc(name@))),
                None => seq![],
            });
            self.add(more);
            assert(self@.edits =~= st2.edits + mv);
            assert(st1 == (StmtState { exported: st0.exported.push("default"@), ..st0 }));
            assert(self@.edits =~= st2.edits + delete_range(ustart(*stmt), ustart(*d)) + nv + match uend(*stmt) {
                Some(e) => insertion_at(e, enc("\n"@) + assign_text("default"@, enc(name@))),
                None => seq![],
            });
        } else {
            let ghost st1 = self@;
            let mut head: Vec<u8> = Vec::new();
            push_str(&mut head, "exports.default = ");
            let mut tail: Vec<u8> = Vec::new();
            push_str(&mut tail, ";");
            let mut more = range_edit(get_ustart(stmt), get_ustart(d), head);
            let ghost m1 = crate::text::edit_views(more@);
            let more2 = range_edit(get_uend(d), get_uend(stmt), tail);
            let ghost m2 = crate::text::edit_views(more2@);
            append_edits(&mut more, more2);
            assert(crate::text::edit_views(more@) =~= m1 + m2);
            self.add(more);
            assert(self@.edits =~= st1.edits + m1 + m2);
            assert(self@ == rewrite_export_default(st0, *stmt, *d, src@));
        }
    }

    /// See [`rewrite_export_all`].
    fn rewrite_export_all(&mut self, stmt: &Json, src: &String)
        ensures
            final(self)@ == rewrite_export_all(old(self)@, *stmt, src@),
    {
        self.needs.export_star = true;
        let name: Option<&String> = match get(stmt, "exported") {
            Some(e) => get_export_name(e),
            None => None,
        };
        let mut t: Vec<u8> = Vec::new();
        match name {
            Some(n) => {
                self.needs.import_star = true;
                let ghost ex = string_views(self.exported@);
                self.exported.push(n.clone());
                assert(string_views(self.exported@) =~= ex.push(n@));
                let mut value: Vec<u8> = Vec::new();
                push_str(&mut value, "__importStar(");
                push_require(&mut value, src);
                push_str(&mut value, ")");
                push_assign(&mut t, n, value.as_slice());
            },
            None => {
                push_str(&mut t, "__exportStar(");
                push_require(&mut t, src);
                push_str(&mut t, ", exports);");
            },
        }
        let more = replace_node_of(stmt, t);
        self.add(more);
    }

    /// See [`stmt_step`].
    fn step(&mut self, repls: &Vec<(String, (String, String))>, src: &Vec<u8>, stmt: &Json)
        ensures
            final(self)@ == stmt_step(old(self)@, repls_view(repls@), src@, *stmt),
    {
        if has_type(stmt, "ImportDeclaration") {
            match get_source_of(stmt) {
                Some(s) => self.rewrite_import(stmt, s),
                None => {},
            }
        } else if has_type(stmt, "ExportNamedDeclaration") {
            if !get_is_null_field(stmt, "source") {
                match get_source_of(stmt) {
                    Some(s) => self.rewrite_reexport(stmt, s),
                    None => {},
                }
            } else {
                match get_exported_declaration(stmt) {
                    Some(d) => self.rewrite_export_declaration(stmt, d),
                    None => self.rewrite_export_list(stmt, repls),
                }
            }
        } else if has_type(stmt, "ExportDefaultDeclaration") {
            match get(stmt, "declaration") {
                Some(d) => self.rewrite_export_default(stmt, d, src),
                None => {},
            }
        } else if has_type(stmt, "ExportAllDeclaration") {
            match get_source_of(stmt) {
                Some(s) => self.rewrite_export_all(stmt, s),
                None => {},
            }
        }
    }
}


/// See [`stmt_scan`].
fn stmt_scan_of(st: &mut StmtRewriter, repls: &Vec<(String, (String, String))>, src: &Vec<u8>, body: &Vec<Json>)
    ensures
        final(st)@ == stmt_scan(old(st)@, repls_view(repls@), src@, body@, body@.len()),
{
    let ghost st0 = st@;
    let mut i: usize = 0;
    while i < body.len()
        invariant
            i <= body@.len(),
            st@ == stmt_scan(st0, repls_view(repls@), src@, body@, i as nat),
        decreases body@.len() - i,
    {
        st.step(repls, src, &body[i]);
        i = i + 1;
    }
}

/// See [`has_module_syntax`].
fn has_module_syntax_of(body: &Vec<Json>) -> (r: bool)
    ensures
        r == has_module_syntax(body@, body@.len()),
{
    let mut found = false;
    let mut i: usize = 0;
    while i < body.len()
        invariant
            i <= body@.len(),
            found == has_module_syntax(body@, i as nat),
        decreases body@.len() - i,
    {
        let stmt = &body[i];
        let m = has_type(stmt, "ImportDeclaration") || has_type(stmt, "ExportNamedDeclaration")
            || has_type(stmt, "ExportDefaultDeclaration") || has_type(stmt, "ExportAllDeclaration");
        found = found || m;
        i = i + 1;
    }
    found
}

/// Splitting off the last link of a `void 0` chain.
proof fn lemma_void0_take(names: Seq<Seq<char>>, i: int)
    requires
        0 < i <= names.len(),
    ensures
        void0_chain(names.take(i)) == enc("exports."@) + enc(names[i - 1]) + enc(" = "@) + void0_chain(
            names.take(i - 1),
        ),
{
    assert(names.take(i).drop_last() =~= names.take(i - 1));
    assert(names.take(i).last() == names[i - 1]);
}

/// See [`void0_chain`].
fn void0_chain_of(names: &Vec<String>) -> (r: Vec<u8>)
    ensures
        r@ == void0_chain(string_views(names@)),
{
    let ghost nv = string_views(names@);
    let mut out: Vec<u8> = Vec::new();
    let mut i: usize = names.len();
    assert(nv.take(nv.len() as int) =~= nv);
    while i > 0
        invariant
            i <= names@.len(),
            nv == string_views(names@),
            out@ + void0_chain(nv.take(i as int)) == void0_chain(nv),
        decreases i,
    {
        proof {
            lemma_void0_take(nv, i as int);
        }
        let ghost before = out@;
        push_str(&mut out, "exports.");
        push_str(&mut out, names[i - 1].as_str());
        push_str(&mut out, " = ");
        assert(out@ + void0_chain(nv.take(i - 1)) =~= before + void0_chain(nv.take(i as int)));
        i = i - 1;
    }
    let ghost before = out@;
    push_str(&mut out, "void 0");
    assert(nv.take(0) =~= Seq::<Seq<char>>::empty());
    assert(out@ =~= before + void0_chain(nv.take(0)));
    out
}

/// See [`header_text`].
fn header_of(esm: bool, exported: &Vec<String>) -> (r: Vec<u8>)
    ensures
        r@ == header_text(esm, string_views(exported@)),
{
    let mut out: Vec<u8> = Vec::new();
    if esm {
        push_str(&mut out, "Object.defineProperty(exports, \"__esModule\", { value: true });");
    }
    let ghost a = out@;
    if exported.len() > 0 {
        let chain = void0_chain_of(exported);
        push_bytes(&mut out, chain.as_slice());
        push_str(&mut out, ";");
        assert(out@ =~= a + (void0_chain(string_views(exported@)) + enc(";"@)));
    } else {
        assert(out@ =~= a + Seq::<u8>::empty());
    }
    out
}

/// The ESM→CJS rewrite of a module with text `source`, tree `program` and
/// bindings `table` (see [`cjs_rewrite`]): the edits, and the helper
/// prelude and whether the module was converted.
pub fn esm_to_cjs(source: &str, program: &Json, table: &Vec<Symbol>) -> (r: (Vec<Edit>, CjsResult))
    ensures
        crate::text::edit_views(r.0@) == cjs_rewrite(enc(source@), *program, table@).0,
        r.1.prelude@ == prelude_text(cjs_rewrite(enc(source@), *program, table@).1),
        r.1.converted == cjs_rewrite(enc(source@), *program, table@).2,
{
    let empty: Vec<Json> = Vec::new();
    let body: &Vec<Json> = match get_arr(program, "body") {
        Some(b) => b,
        None => &empty,
    };
    assert(body@ == crate::resources::body_of(*program));
    let mut src: Vec<u8> = Vec::new();
    push_str(&mut src, source);
    assert(src@ =~= enc(source@));
    let aggs = aggregate_of(body);
    let mut used: Vec<(String, usize)> = Vec::new();
    assert(used_views(used@) =~= seq![]);
    let vars = assign_vars_of(&aggs, &mut used);
    let repls = import_repls_of(body, &vars);
    let mut routes = import_routes_of(body, &repls);
    let ghost r1 = routes_view(routes@);
    let mut ex_routes = export_routes_of(body);
    let ghost r2 = routes_view(ex_routes@);
    routes.append(&mut ex_routes);
    assert(routes_view(routes@) =~= r1 + r2);
    let lets = module_lets_of(body);
    let live = live_exports_of(body, &lets);
    let mut refs = RefRewriter {
        routes: ref_routes_of(table, &routes),
        live: ref_live_of(table, &live),
        claimed: Vec::new(),
        stmt_level: Vec::new(),
        import_star_used: false,
        source: src.clone(),
        edits: Vec::new(),
    };
    proof {
        assert(refs@.claimed =~= seq![]);
        assert(refs@.stmt_level =~= seq![]);
        assert(refs@.edits =~= seq![]);
    }
    crate::walk::walk(&mut refs, program);
    let mut st = StmtRewriter {
        vars,
        used,
        emitted: Vec::new(),
        exported: Vec::new(),
        needs: Needs { import_default: false, import_star: false, export_star: false },
        edits: Vec::new(),
    };
    proof {
        assert(st@.emitted =~= seq![]);
        assert(st@.exported =~= seq![]);
        assert(st@.edits =~= seq![]);
    }
    stmt_scan_of(&mut st, &repls, &src, body);
    let esm = has_module_syntax_of(body);
    let header = header_of(esm, &st.exported);
    let mut edits: Vec<Edit> = Vec::new();
    if header.len() > 0 {
        let at = crate::estree::get_hoist_point(body, src.len());
        edits.push(Edit { start: at, end: at, text: header, origin: None });
    }
    let ghost h = crate::text::edit_views(edits@);
    let ghost rv = crate::text::edit_views(refs.edits@);
    let ghost sv = crate::text::edit_views(st.edits@);
    append_edits(&mut edits, refs.edits);
    append_edits(&mut edits, st.edits);
    assert(crate::text::edit_views(edits@) =~= h + rv + sv);
    let needs = Needs {
        import_default: st.needs.import_default,
        import_star: st.needs.import_star || refs.import_star_used,
        export_star: st.needs.export_star,
    };
    let prelude = prelude_of(&needs);
    (edits, CjsResult { prelude, converted: esm })
}

} // verus!
