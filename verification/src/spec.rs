//! OpenAPI specification parsing.
//!
//! Supports OpenAPI 3.x and Swagger 2.0 documents, read into a [`JsonValue`].

use vstd::prelude::*;

use crate::error::{Error, ErrorView};
use crate::json::{
    array_of, bool_field, compact_text, field, json_compact, json_pointer, object_of, plain_text,
    pointer_of, read_json, read_yaml, str_field, str_of, json_reading, yaml_reading,
    strings_in, JsonValue,
};
use crate::text::{
    ascii_lower, char_is_lower, char_is_upper, char_lower, chars_of, copy_str, has_prefix,
    has_suffix, is_lowercase, is_uppercase, join, push_char, push_str, replace_char,
    replace_char_str, split_char, split_on, str_eq, str_lower, string_of,
    char_to_lowercase, starts_with, to_ascii_lowercase, to_lowercase, trim_both, trim_end,
    trim_end_matches, trim_matches, trim_start, trim_start_matches,
};

verus! {

// ── Public data model ────────────────────────────────────────────────────────

/// A fully parsed OpenAPI specification.
#[derive(Debug, Clone)]
pub struct ApiSpec {
    /// Metadata from the `info` object.
    pub info: ApiInfo,
    /// Base server URLs.
    pub servers: Vec<String>,
    /// All HTTP operations found in `paths`.
    pub operations: Vec<Operation>,
}

/// The `info` block of an OpenAPI spec.
#[derive(Debug, Clone)]
pub struct ApiInfo {
    pub title: String,
    pub version: String,
    pub description: Option<String>,
}

/// A single HTTP operation (one method × one path).
#[derive(Debug, Clone)]
pub struct Operation {
    /// Original `operationId`, or a generated identifier.
    pub operation_id: String,
    /// Kebab-case CLI subcommand name (derived from `operation_id`).
    pub command_name: String,
    pub method: HttpMethod,
    pub path: String,
    pub summary: Option<String>,
    pub description: Option<String>,
    pub parameters: Vec<Parameter>,
    /// Present when the operation accepts a request body.
    pub request_body: Option<RequestBody>,
    /// OpenAPI tags (used to group subcommands).
    pub tags: Vec<String>,
}

/// HTTP verb.
#[derive(Debug, Clone, Copy, PartialEq, Eq, Structural)]
pub enum HttpMethod {
    Get,
    Post,
    Put,
    Delete,
    Patch,
    Head,
    Options,
}

/// A single API parameter (path, query, header, or cookie).
#[derive(Debug, Clone)]
pub struct Parameter {
    /// Original name as in the spec.
    pub name: String,
    /// Lowercased, hyphenated name used as a CLI flag (e.g. `pet-id`).
    pub cli_name: String,
    pub location: ParamIn,
    pub required: bool,
    pub schema: Schema,
    pub description: Option<String>,
}

/// Where the parameter is placed in the HTTP request.
#[derive(Debug, Clone, Copy, PartialEq, Eq, Structural)]
pub enum ParamIn {
    Path,
    Query,
    Header,
    Cookie,
}

/// Minimal schema information needed to build CLI arguments.
#[derive(Debug, Clone)]
pub struct Schema {
    pub schema_type: SchemaType,
    /// Allowed values for enum parameters.
    pub enum_values: Option<Vec<String>>,
    /// Default value as a string.
    pub default: Option<String>,
}

/// Simplified JSON Schema type.
#[derive(Debug, Clone, Copy, PartialEq, Eq, Structural)]
pub enum SchemaType {
    String,
    Integer,
    Number,
    Boolean,
    Array,
    Object,
}

/// Indicates an operation accepts a request body.
#[derive(Debug, Clone)]
pub struct RequestBody {
    pub required: bool,
    pub description: Option<String>,
}

impl Default for SchemaType {
    fn default() -> (r: SchemaType)
        ensures
            r == SchemaType::String,
    {
        SchemaType::String
    }
}

impl Default for Schema {
    fn default() -> (r: Schema)
        ensures
            r@ == default_schema(),
    {
        Schema { schema_type: SchemaType::String, enum_values: None, default: None }
    }
}

// ── Views ─────────────────────────────────────────────────────────────────────

/// The texts of a sequence of strings.
pub open spec fn texts(v: Seq<String>) -> Seq<Seq<char>> {
    v.map_values(|s: String| s@)
}

/// The text of an optional string.
pub open spec fn opt_text(o: Option<String>) -> Option<Seq<char>> {
    match o {
        Some(s) => Some(s@),
        None => None,
    }
}

pub struct ApiSpecView {
    pub info: ApiInfoView,
    pub servers: Seq<Seq<char>>,
    pub operations: Seq<OperationView>,
}

pub struct ApiInfoView {
    pub title: Seq<char>,
    pub version: Seq<char>,
    pub description: Option<Seq<char>>,
}

pub struct OperationView {
    pub operation_id: Seq<char>,
    pub command_name: Seq<char>,
    pub method: HttpMethod,
    pub path: Seq<char>,
    pub summary: Option<Seq<char>>,
    pub description: Option<Seq<char>>,
    pub parameters: Seq<ParameterView>,
    pub request_body: Option<RequestBodyView>,
    pub tags: Seq<Seq<char>>,
}

pub struct ParameterView {
    pub name: Seq<char>,
    pub cli_name: Seq<char>,
    pub location: ParamIn,
    pub required: bool,
    pub schema: SchemaView,
    pub description: Option<Seq<char>>,
}

pub struct SchemaView {
    pub schema_type: SchemaType,
    pub enum_values: Option<Seq<Seq<char>>>,
    pub default: Option<Seq<char>>,
}

pub struct RequestBodyView {
    pub required: bool,
    pub description: Option<Seq<char>>,
}

impl View for ApiInfo {
    type V = ApiInfoView;

    open spec fn view(&self) -> ApiInfoView {
        ApiInfoView {
            title: self.title@,
            version: self.version@,
            description: opt_text(self.description),
        }
    }
}

impl View for Schema {
    type V = SchemaView;

    open spec fn view(&self) -> SchemaView {
        SchemaView {
            schema_type: self.schema_type,
            enum_values: match self.enum_values {
                Some(v) => Some(texts(v@)),
                None => None,
            },
            default: opt_text(self.default),
        }
    }
}

impl View for Parameter {
    type V = ParameterView;

    open spec fn view(&self) -> ParameterView {
        ParameterView {
            name: self.name@,
            cli_name: self.cli_name@,
            location: self.location,
            required: self.required,
            schema: self.schema@,
            description: opt_text(self.description),
        }
    }
}

impl View for RequestBody {
    type V = RequestBodyView;

    open spec fn view(&self) -> RequestBodyView {
        RequestBodyView { required: self.required, description: opt_text(self.description) }
    }
}

/// The view of an optional request body.
pub open spec fn opt_body(o: Option<RequestBody>) -> Option<RequestBodyView> {
    match o {
        Some(b) => Some(b@),
        None => None,
    }
}

impl View for Operation {
    type V = OperationView;

    open spec fn view(&self) -> OperationView {
        OperationView {
            operation_id: self.operation_id@,
            command_name: self.command_name@,
            method: self.method,
            path: self.path@,
            summary: opt_text(self.summary),
            description: opt_text(self.description),
            parameters: self.parameters@.map_values(|p: Parameter| p@),
            request_body: opt_body(self.request_body),
            tags: texts(self.tags@),
        }
    }
}

impl View for ApiSpec {
    type V = ApiSpecView;

    open spec fn view(&self) -> ApiSpecView {
        ApiSpecView {
            info: self.info@,
            servers: texts(self.servers@),
            operations: self.operations@.map_values(|o: Operation| o@),
        }
    }
}

/// The schema of a parameter that gives none: a plain string.
pub open spec fn default_schema() -> SchemaView {
    SchemaView { schema_type: SchemaType::String, enum_values: None, default: None }
}

// ── HTTP methods ──────────────────────────────────────────────────────────────

/// The name of a method as it is displayed (`GET`, `POST`, ...).
pub open spec fn method_name(m: HttpMethod) -> Seq<char> {
    match m {
        HttpMethod::Get => "GET"@,
        HttpMethod::Post => "POST"@,
        HttpMethod::Put => "PUT"@,
        HttpMethod::Delete => "DELETE"@,
        HttpMethod::Patch => "PATCH"@,
        HttpMethod::Head => "HEAD"@,
        HttpMethod::Options => "OPTIONS"@,
    }
}

/// The name of a method as a path item keys it (`get`, `post`, ...).
pub open spec fn method_key(m: HttpMethod) -> Seq<char> {
    match m {
        HttpMethod::Get => "get"@,
        HttpMethod::Post => "post"@,
        HttpMethod::Put => "put"@,
        HttpMethod::Delete => "delete"@,
        HttpMethod::Patch => "patch"@,
        HttpMethod::Head => "head"@,
        HttpMethod::Options => "options"@,
    }
}

/// The method that a (case-insensitive) name denotes; `GET` for unknown names.
pub open spec fn method_from_name(s: Seq<char>) -> HttpMethod {
    let l = s.map_values(|c: char| ascii_lower(c));
    if l == "get"@ {
        HttpMethod::Get
    } else if l == "post"@ {
        HttpMethod::Post
    } else if l == "put"@ {
        HttpMethod::Put
    } else if l == "delete"@ {
        HttpMethod::Delete
    } else if l == "patch"@ {
        HttpMethod::Patch
    } else if l == "head"@ {
        HttpMethod::Head
    } else if l == "options"@ {
        HttpMethod::Options
    } else {
        HttpMethod::Get
    }
}

impl HttpMethod {
    /// The method's name as it is displayed (`GET`, `POST`, ...).
    pub fn as_str(&self) -> (r: &'static str)
        ensures
            r@ == method_name(*self),
    {
        match self {
            HttpMethod::Get => "GET",
            HttpMethod::Post => "POST",
            HttpMethod::Put => "PUT",
            HttpMethod::Delete => "DELETE",
            HttpMethod::Patch => "PATCH",
            HttpMethod::Head => "HEAD",
            HttpMethod::Options => "OPTIONS",
        }
    }

    /// The method's name in lowercase (`get`, `post`, ...).
    pub fn key(&self) -> (r: &'static str)
        ensures
            r@ == method_key(*self),
    {
        match self {
            HttpMethod::Get => "get",
            HttpMethod::Post => "post",
            HttpMethod::Put => "put",
            HttpMethod::Delete => "delete",
            HttpMethod::Patch => "patch",
            HttpMethod::Head => "head",
            HttpMethod::Options => "options",
        }
    }
}

// ── Names ─────────────────────────────────────────────────────────────────────

/// What one character of an identifier becomes in its kebab-case form,
/// before runs of hyphens are collapsed: an uppercase letter is lowercased,
/// with a hyphen in front where a word starts (after a lowercase letter, or
/// as the last capital of an acronym that a lowercase letter follows);
/// `_` and ` ` become hyphens; everything else is kept.
pub open spec fn kebab_piece(cs: Seq<char>, i: int) -> Seq<char> {
    let ch = cs[i];
    if char_is_upper(ch) {
        let prev_lower = i > 0 && char_is_lower(cs[i - 1]);
        let next_lower = i + 1 < cs.len() && char_is_lower(cs[i + 1]);
        let prev_upper = i > 0 && char_is_upper(cs[i - 1]);
        (if i > 0 && (prev_lower || (next_lower && prev_upper)) {
            seq!['-']
        } else {
            Seq::<char>::empty()
        }) + char_lower(ch)
    } else if ch == '_' || ch == ' ' {
        seq!['-']
    } else {
        seq![ch]
    }
}

/// The pieces of the first `n` characters of `cs`, concatenated.
pub open spec fn kebab_marked(cs: Seq<char>, n: int) -> Seq<char>
    decreases n,
{
    if n <= 0 {
        Seq::<char>::empty()
    } else {
        kebab_marked(cs, n - 1) + kebab_piece(cs, n - 1)
    }
}

/// `s` with every hyphen that follows a hyphen removed.
pub open spec fn collapse_hyphens(s: Seq<char>) -> Seq<char>
    decreases s.len(),
{
    if s.len() == 0 {
        s
    } else {
        let r = collapse_hyphens(s.drop_last());
        if s.last() == '-' && s.len() >= 2 && s[s.len() - 2] == '-' {
            r
        } else {
            r.push(s.last())
        }
    }
}

/// The kebab-case form of an identifier.
pub open spec fn kebab(s: Seq<char>) -> Seq<char> {
    trim_both(collapse_hyphens(kebab_marked(s, s.len() as int)), '-')
}

/// Convert a camelCase / PascalCase / snake_case identifier to `kebab-case`.
///
/// ```text
/// "getPetById"        →  "get-pet-by-id"
/// "findPetsByStatus"  →  "find-pets-by-status"
/// "XMLParser"         →  "xml-parser"
/// "some_var_name"     →  "some-var-name"
/// ```
pub fn to_kebab_case(s: &str) -> (r: String)
    ensures
        r@ == kebab(s@),
        crate::laws::clean_hyphens(r@),
        crate::laws::all_ascii(s@) ==> crate::laws::is_kebab(r@),
        crate::laws::is_kebab(s@) ==> r@ == s@,
        crate::laws::no_underscore_space(r@),
        (r@.len() == 0) == crate::laws::only_separators(s@),
{
    proof {
        crate::laws::kebab_has_clean_hyphens(s@);
    }
    let cs = chars_of(s);
    let n = cs.len();
    let mut result = String::new();
    let mut i: usize = 0;
    while i < n
        invariant
            cs@ == s@,
            n == cs.len(),
            i <= n,
            result@ == kebab_marked(cs@, i as int),
            crate::laws::is_kebab(cs@) ==> result@ == cs@.take(i as int),
            crate::laws::all_ascii(cs@) ==> crate::laws::kebab_chars(result@),
            crate::laws::no_underscore_space(result@),
            crate::laws::has_word(result@) == !crate::laws::only_separators(cs@.take(i as int)),
        decreases n - i,
    {
        let ch = cs[i];
        let ghost before = result@;
        proof {
            if crate::laws::all_ascii(cs@) {
                assert((cs@[i as int] as u32) < 128);
            }
            if crate::laws::is_kebab(cs@) {
                assert(crate::laws::kebab_char(cs@[i as int]));
            }
        }
        if is_uppercase(ch) {
            let prev_lower = i > 0 && is_lowercase(cs[i - 1]);
            let next_lower = i + 1 < n && is_lowercase(cs[i + 1]);
            let prev_upper = i > 0 && is_uppercase(cs[i - 1]);
            if i > 0 && (prev_lower || (next_lower && prev_upper)) {
                push_char(&mut result, '-');
            }
            let ghost dashed = result@;
            let lower = char_to_lowercase(ch);
            push_str(&mut result, lower.as_str());
            proof {
                assert(!crate::laws::separator(ch)) by {
                    if ch == '-' || ch == '_' || ch == ' ' {
                        assert((ch as u32) < 128);
                    }
                }
                assert(crate::laws::has_word(lower@)) by {
                    assert(lower@[0] != '-');
                }
                assert(crate::laws::no_underscore_space(lower@));
                if dashed.len() > before.len() {
                    assert(dashed =~= before + seq!['-']);
                    crate::laws::lemma_append_chars(before, seq!['-']);
                } else {
                    assert(dashed =~= before);
                }
                crate::laws::lemma_append_chars(dashed, lower@);
                crate::laws::lemma_append_chars(before, dashed.skip(before.len() as int));
            }
            proof {
                if crate::laws::all_ascii(cs@) {
                    assert(crate::laws::kebab_char('-'));
                    assert(crate::laws::kebab_char(lower@[0]));
                    assert(result@ =~= dashed.push(lower@[0]));
                    assert forall|j: int| before.len() <= j < result@.len() implies crate::laws::kebab_char(
                        #[trigger] result@[j],
                    ) by {
                        if j < dashed.len() {
                            assert(result@[j] == dashed[j]);
                            assert(dashed[j] == '-');
                        }
                    }
                }
            }
        } else if ch == '_' || ch == ' ' {
            push_char(&mut result, '-');
            proof {
                assert(result@ =~= before + seq!['-']);
                crate::laws::lemma_append_chars(before, seq!['-']);
                assert(!crate::laws::has_word(seq!['-']));
                assert(crate::laws::kebab_char('-'));
                assert(result@[before.len() as int] == '-');
                assert(result@.len() == before.len() + 1);
            }
        } else {
            push_char(&mut result, ch);
            proof {
                assert(result@ =~= before + seq![ch]);
                crate::laws::lemma_append_chars(before, seq![ch]);
                if ch != '-' {
                    assert(seq![ch][0] != '-');
                }
                if crate::laws::all_ascii(cs@) {
                    crate::laws::lemma_kebab_char(ch);
                    assert(result@[before.len() as int] == ch);
                    assert(result@.len() == before.len() + 1);
                }
            }
        }
        proof {
            assert(result@ =~= before + kebab_piece(cs@, i as int));
            assert(cs@.take(i + 1) =~= cs@.take(i as int).push(ch));
            crate::laws::lemma_separators_push(cs@.take(i as int), ch);
            if crate::laws::is_kebab(cs@) {
                assert(kebab_piece(cs@, i as int) =~= seq![ch]);
                assert(cs@.take(i + 1) =~= cs@.take(i as int).push(ch));
            }
            if crate::laws::all_ascii(cs@) {
                assert forall|j: int| 0 <= j < result@.len() implies crate::laws::kebab_char(
                    #[trigger] result@[j],
                ) by {
                    if j < before.len() {
                        assert(result@[j] == before[j]);
                    } else if !char_is_upper(ch) {
                        assert(j == before.len());
                    }
                }
            }
        }
        i = i + 1;
    }
    let marked = chars_of(result.as_str());
    let mut out = String::new();
    let mut prev_hyphen = false;
    let mut j: usize = 0;
    while j < marked.len()
        invariant
            j <= marked.len(),
            out@ == collapse_hyphens(marked@.take(j as int)),
            prev_hyphen == (j > 0 && marked@[j - 1] == '-'),
        decreases marked.len() - j,
    {
        let ch = marked[j];
        proof {
            assert(marked@.take(j + 1).drop_last() =~= marked@.take(j as int));
        }
        if ch == '-' {
            if !prev_hyphen {
                push_char(&mut out, ch);
            }
            prev_hyphen = true;
        } else {
            push_char(&mut out, ch);
            prev_hyphen = false;
        }
        j = j + 1;
    }
    proof {
        assert(marked@.take(marked@.len() as int) =~= marked@);
        assert(cs@.take(n as int) =~= cs@);
        crate::laws::lemma_collapse_keeps(marked@);
        crate::laws::lemma_trim_both_keeps(out@);
        let t = trim_both(out@, '-');
        assert forall|k: int| 0 <= k < t.len() implies #[trigger] t[k] != '_' && t[k] != ' ' by {
            let k1 = choose|k1: int| 0 <= k1 < out@.len() && t[k] == out@[k1];
            let k2 = choose|k2: int| 0 <= k2 < marked@.len() && out@[k1] == marked@[k2];
        }
        if crate::laws::all_ascii(s@) {
            crate::laws::lemma_collapse_chars(marked@);
            crate::laws::lemma_trim_chars(out@);
        }
        if crate::laws::is_kebab(s@) {
            crate::laws::lemma_collapse_noop(marked@);
            let t = out@;
            assert(t == s@);
            if t.len() > 0 {
                assert(trim_start(t, '-') == t);
                assert(trim_end(t, '-') == t);
            }
        }
    }
    trim_matches(out.as_str(), '-')
}

/// Whether a path segment is a template parameter such as `{petId}`.
pub open spec fn is_template(seg: Seq<char>) -> bool {
    has_prefix(seg, seq!['{']) && has_suffix(seg, seq!['}'])
}

/// The name inside a template segment.
pub open spec fn template_name(seg: Seq<char>) -> Seq<char> {
    seg.subrange(1, seg.len() - 1)
}

/// The words that the path segments contribute to a generated operation id:
/// empty segments contribute nothing, a template contributes `by` and the
/// kebab-case of its name, any other segment itself.
pub open spec fn op_id_words(segs: Seq<Seq<char>>) -> Seq<Seq<char>>
    decreases segs.len(),
{
    if segs.len() == 0 {
        Seq::<Seq<char>>::empty()
    } else {
        let rest = op_id_words(segs.drop_last());
        let seg = segs.last();
        if seg.len() == 0 {
            rest
        } else if is_template(seg) {
            rest.push("by"@).push(kebab(template_name(seg)))
        } else {
            rest.push(seg)
        }
    }
}

/// The operation id generated for a method and a path.
pub open spec fn operation_id_for(method: Seq<char>, path: Seq<char>) -> Seq<char> {
    join(seq![method] + op_id_words(split_on(trim_start(path, '/'), '/')), "-"@)
}

/// Whether a segment (as a character vector) is a template.
fn is_template_exec(seg: &Vec<char>) -> (r: bool)
    ensures
        r == is_template(seg@),
        r ==> seg@.len() >= 2,
{
    let n = seg.len();
    if n < 2 {
        proof {
            if n == 1 && is_template(seg@) {
                assert(seg@.take(1)[0] == '{');
                assert(seg@.skip(0)[0] == '}');
            }
        }
        return false;
    }
    let r = seg[0] == '{' && seg[n - 1] == '}';
    proof {
        if is_template(seg@) {
            assert(seg@.take(1)[0] == '{');
            assert(seg@.skip(n - 1)[0] == '}');
        }
        if r {
            assert(seg@.take(1) =~= seq!['{']);
            assert(seg@.skip(n - 1) =~= seq!['}']);
        }
    }
    r
}

/// Generate an `operationId` from an HTTP method and path when the spec omits one.
///
/// ```text
/// GET  /pet/{petId}  →  "get-pet-by-pet-id"
/// POST /pet          →  "post-pet"
/// ```
pub fn generate_operation_id(method: &str, path: &str) -> (r: String)
    ensures
        r@ == operation_id_for(method@, path@),
{
    let trimmed = trim_start_matches(path, '/');
    let segs = split_char(trimmed.as_str(), '/');
    let ghost segs_v = split_on(trim_start(path@, '/'), '/');
    let mut r = copy_str(method);
    let ghost mut words: Seq<Seq<char>> = seq![method@];
    let mut k: usize = 0;
    proof {
        assert(segs_v.take(0) =~= Seq::<Seq<char>>::empty());
        assert(words =~= seq![method@] + op_id_words(segs_v.take(0)));
    }
    while k < segs.len()
        invariant
            segs@.len() == segs_v.len(),
            forall|j: int| 0 <= j < segs@.len() ==> #[trigger] segs@[j]@ == segs_v[j],
            k <= segs@.len(),
            words == seq![method@] + op_id_words(segs_v.take(k as int)),
            words.len() >= 1,
            r@ == join(words, "-"@),
        decreases segs.len() - k,
    {
        proof {
            assert(segs_v.take(k + 1).drop_last() =~= segs_v.take(k as int));
            reveal_strlit("-");
            reveal_strlit("by");
        }
        let seg = chars_of(segs[k].as_str());
        if seg.len() == 0 {
        } else if is_template_exec(&seg) {
            let inner = string_of(&seg, 1, seg.len() - 1);
            let name = to_kebab_case(inner.as_str());
            push_str(&mut r, "-");
            push_str(&mut r, "by");
            push_str(&mut r, "-");
            push_str(&mut r, name.as_str());
            proof {
                let w1 = words.push("by"@);
                assert(w1.drop_last() =~= words);
                assert(join(w1, "-"@) =~= join(words, "-"@) + "-"@ + "by"@);
                let w2 = w1.push(kebab(template_name(seg@)));
                assert(w2.drop_last() =~= w1);
                assert(w1.drop_last() =~= words);
                assert(join(w2, "-"@) =~= join(w1, "-"@) + "-"@ + kebab(template_name(seg@)));
                words = w2;
                assert(seq![method@] + op_id_words(segs_v.take(k + 1)) =~= words);
            }
        } else {
            push_str(&mut r, "-");
            push_str(&mut r, segs[k].as_str());
            proof {
                let w1 = words.push(seg@);
                assert(w1.drop_last() =~= words);
                assert(join(w1, "-"@) =~= join(words, "-"@) + "-"@ + seg@);
                words = w1;
                assert(seq![method@] + op_id_words(segs_v.take(k + 1)) =~= words);
            }
        }
        proof {
            if seg@.len() == 0 {
                assert(seq![method@] + op_id_words(segs_v.take(k + 1)) =~= words);
            }
        }
        k = k + 1;
    }
    proof {
        assert(segs_v.take(segs_v.len() as int) =~= segs_v);
    }
    r
}


// ── Reading fields ────────────────────────────────────────────────────────────

/// The text `o` holds, or `d`.
pub open spec fn or_text(o: Option<Seq<char>>, d: Seq<char>) -> Seq<char> {
    match o {
        Some(t) => t,
        None => d,
    }
}

/// The flag `o` holds, or `d`.
pub open spec fn or_bool(o: Option<bool>, d: bool) -> bool {
    match o {
        Some(b) => b,
        None => d,
    }
}

/// The string field `key` of `v`.
pub fn str_field_of<'a>(v: &'a JsonValue, key: &str) -> (r: Option<&'a str>)
    ensures
        r is Some == str_field(*v, key@) is Some,
        r matches Some(x) ==> x@ == str_field(*v, key@)->0,
{
    match v.get(key) {
        Some(x) => x.as_str(),
        None => None,
    }
}

/// The string field `key` of `v`, or `default`.
pub fn text_or(v: &JsonValue, key: &str, default: &str) -> (r: String)
    ensures
        r@ == or_text(str_field(*v, key@), default@),
{
    match str_field_of(v, key) {
        Some(x) => copy_str(x),
        None => copy_str(default),
    }
}

/// The string field `key` of `v`, copied.
pub fn opt_text_of(v: &JsonValue, key: &str) -> (r: Option<String>)
    ensures
        opt_text(r) == str_field(*v, key@),
{
    match str_field_of(v, key) {
        Some(x) => Some(copy_str(x)),
        None => None,
    }
}

/// The boolean field `key` of `v`, or `default`.
pub fn bool_or(v: &JsonValue, key: &str, default: bool) -> (r: bool)
    ensures
        r == or_bool(bool_field(*v, key@), default),
{
    match v.get(key) {
        Some(x) => match x.as_bool() {
            Some(b) => b,
            None => default,
        },
        None => default,
    }
}

/// The string elements of an array, copied, in order.
pub fn strings_of(items: &Vec<JsonValue>) -> (r: Vec<String>)
    ensures
        texts(r@) == strings_in(items@),
{
    let mut r: Vec<String> = Vec::new();
    let mut i: usize = 0;
    while i < items.len()
        invariant
            i <= items.len(),
            texts(r@) == strings_in(items@.take(i as int)),
        decreases items.len() - i,
    {
        proof {
            assert(items@.take(i + 1).drop_last() =~= items@.take(i as int));
        }
        let ghost before = r@;
        match items[i].as_str() {
            Some(x) => {
                r.push(copy_str(x));
                proof {
                    assert(texts(r@) =~= texts(before).push(x@));
                }
            },
            None => {},
        }
        i = i + 1;
    }
    proof {
        assert(items@.take(items@.len() as int) =~= items@);
    }
    r
}

/// Loads and parses an OpenAPI specification.
pub struct SpecLoader;

// ── Spec reading ──────────────────────────────────────────────────────────────

/// The two document versions that are read.
#[derive(Debug, Clone, Copy, PartialEq, Eq, Structural)]
pub enum SpecVersion {
    V2,
    V3,
}

/// The schema type that a `type` name denotes; `string` for unknown names.
pub open spec fn schema_type_of(t: Seq<char>) -> SchemaType {
    if t == "integer"@ {
        SchemaType::Integer
    } else if t == "number"@ {
        SchemaType::Number
    } else if t == "boolean"@ {
        SchemaType::Boolean
    } else if t == "array"@ {
        SchemaType::Array
    } else if t == "object"@ {
        SchemaType::Object
    } else {
        SchemaType::String
    }
}

/// What a schema object says of a parameter: its type (default `string`),
/// the string members of its `enum` array, and the text of its `default`
/// (as serde_json writes it) with surrounding double quotes removed.
pub open spec fn schema_of(s: JsonValue) -> SchemaView {
    SchemaView {
        schema_type: schema_type_of(or_text(str_field(s, "type"@), "string"@)),
        enum_values: match array_of(field(s, "enum"@)) {
            Some(items) => Some(strings_in(items)),
            None => None,
        },
        default: match field(s, "default"@) {
            Some(d) => Some(trim_both(json_compact(d), '"')),
            None => None,
        },
    }
}

/// The location that an `in` value denotes; `query` for unknown values.
pub open spec fn location_of(l: Seq<char>) -> ParamIn {
    if l == "path"@ {
        ParamIn::Path
    } else if l == "header"@ {
        ParamIn::Header
    } else if l == "cookie"@ {
        ParamIn::Cookie
    } else {
        ParamIn::Query
    }
}

/// The parameter that a parameter object describes.
pub open spec fn parameter_of(p: JsonValue, version: SpecVersion) -> ParameterView {
    let name = or_text(str_field(p, "name"@), "param"@);
    let location = location_of(or_text(str_field(p, "in"@), "query"@));
    ParameterView {
        name: name,
        cli_name: str_lower(replace_char(name, '_', "-"@)),
        location: location,
        required: or_bool(bool_field(p, "required"@), false) || location == ParamIn::Path,
        schema: match field(p, "schema"@) {
            Some(s) => schema_of(s),
            None => if version == SpecVersion::V2 {
                schema_of(p)
            } else {
                default_schema()
            },
        },
        description: str_field(p, "description"@),
    }
}

/// The value that a local `$ref` (`#` followed by a JSON Pointer) names in `root`.
pub open spec fn ref_target(p: JsonValue, root: JsonValue) -> Option<JsonValue> {
    match str_field(p, "$ref"@) {
        Some(r) => if r.len() > 0 && r[0] == '#' {
            json_pointer(root, r.drop_first())
        } else {
            None
        },
        None => None,
    }
}

/// `p` with a resolvable `$ref` replaced by its target.
pub open spec fn resolved(p: JsonValue, root: JsonValue) -> JsonValue {
    match ref_target(p, root) {
        Some(t) => t,
        None => p,
    }
}

/// Whether `ep` has exactly the `name` and `in` given.
pub open spec fn keyed_as(ep: JsonValue, name: Seq<char>, loc: Seq<char>) -> bool {
    str_field(ep, "name"@) == Some(name) && str_field(ep, "in"@) == Some(loc)
}

/// `ps` without the parameters that, with a `$ref` resolved in `root`, are
/// keyed as `name` in `loc`.
pub open spec fn without_key(
    ps: Seq<JsonValue>,
    name: Seq<char>,
    loc: Seq<char>,
    root: JsonValue,
) -> Seq<JsonValue>
    decreases ps.len(),
{
    if ps.len() == 0 {
        ps
    } else {
        let r = without_key(ps.drop_last(), name, loc, root);
        if keyed_as(resolved(ps.last(), root), name, loc) {
            r
        } else {
            r.push(ps.last())
        }
    }
}

/// Path-level parameters overridden, in order, by the (resolved)
/// operation-level ones: each replaces those that, once resolved, have the
/// same `name` and `in`, and goes to the end.
pub open spec fn merged_params(
    path_params: Seq<JsonValue>,
    op_params: Seq<JsonValue>,
    root: JsonValue,
) -> Seq<JsonValue>
    decreases op_params.len(),
{
    if op_params.len() == 0 {
        path_params
    } else {
        let acc = merged_params(path_params, op_params.drop_last(), root);
        let p = resolved(op_params.last(), root);
        without_key(
            acc,
            or_text(str_field(p, "name"@), Seq::<char>::empty()),
            or_text(str_field(p, "in"@), Seq::<char>::empty()),
            root,
        ).push(p)
    }
}

/// The request body that a body parameter or `requestBody` object describes.
pub open spec fn body_of(p: JsonValue) -> RequestBodyView {
    RequestBodyView {
        required: or_bool(bool_field(p, "required"@), false),
        description: str_field(p, "description"@),
    }
}

/// The parameters of the merged list, each resolved, and the request body
/// that a Swagger 2.0 `body` parameter gives (the last one wins).
pub open spec fn params_of(merged: Seq<JsonValue>, root: JsonValue, version: SpecVersion) -> (
    Seq<ParameterView>,
    Option<RequestBodyView>,
)
    decreases merged.len(),
{
    if merged.len() == 0 {
        (Seq::<ParameterView>::empty(), None)
    } else {
        let (ps, rb) = params_of(merged.drop_last(), root, version);
        let p = resolved(merged.last(), root);
        if or_text(str_field(p, "in"@), "query"@) == "body"@ && version == SpecVersion::V2 {
            (ps, Some(body_of(p)))
        } else {
            (ps.push(parameter_of(p, version)), rb)
        }
    }
}

/// The parameters array of an object, or nothing.
pub open spec fn params_array(v: JsonValue) -> Seq<JsonValue> {
    match array_of(field(v, "parameters"@)) {
        Some(a) => a,
        None => Seq::<JsonValue>::empty(),
    }
}

/// The operation that an operation object describes.
pub open spec fn operation_of(
    method: HttpMethod,
    path: Seq<char>,
    op: JsonValue,
    path_params: Seq<JsonValue>,
    root: JsonValue,
    version: SpecVersion,
) -> OperationView {
    let operation_id = match str_field(op, "operationId"@) {
        Some(id) => id,
        None => operation_id_for(method_key(method), path),
    };
    let merged = match array_of(field(op, "parameters"@)) {
        Some(a) => merged_params(path_params, a, root),
        None => path_params,
    };
    let collected = params_of(merged, root, version);
    OperationView {
        operation_id: operation_id,
        command_name: kebab(operation_id),
        method: method,
        path: path,
        summary: str_field(op, "summary"@),
        description: str_field(op, "description"@),
        parameters: collected.0,
        request_body: if version == SpecVersion::V3 && field(op, "requestBody"@) is Some {
            Some(body_of(field(op, "requestBody"@)->0))
        } else {
            collected.1
        },
        tags: match array_of(field(op, "tags"@)) {
            Some(a) => strings_in(a),
            None => Seq::<Seq<char>>::empty(),
        },
    }
}

/// The operation under the method key `name` of a path item, if there is one.
#[verifier::opaque]
pub open spec fn op_at(
    name: Seq<char>,
    path: Seq<char>,
    item: JsonValue,
    root: JsonValue,
    version: SpecVersion,
) -> Seq<OperationView> {
    match field(item, name) {
        Some(op) => seq![
            operation_of(method_from_name(name), path, op, params_array(item), root, version),
        ],
        None => Seq::<OperationView>::empty(),
    }
}

/// The operations of one path item, in method order
/// get, post, put, delete, patch, head, options.
pub open spec fn path_item_ops(
    path: Seq<char>,
    item: JsonValue,
    root: JsonValue,
    version: SpecVersion,
) -> Seq<OperationView> {
    op_at("get"@, path, item, root, version) + op_at("post"@, path, item, root, version) + op_at(
        "put"@,
        path,
        item,
        root,
        version,
    ) + op_at("delete"@, path, item, root, version) + op_at("patch"@, path, item, root, version)
        + op_at("head"@, path, item, root, version) + op_at("options"@, path, item, root, version)
}

/// The operations of the path items, in order.
pub open spec fn paths_ops(
    entries: Seq<(String, JsonValue)>,
    root: JsonValue,
    version: SpecVersion,
) -> Seq<OperationView>
    decreases entries.len(),
{
    if entries.len() == 0 {
        Seq::<OperationView>::empty()
    } else {
        paths_ops(entries.drop_last(), root, version) + path_item_ops(
            entries.last().0@,
            entries.last().1,
            root,
            version,
        )
    }
}

/// All operations of a document; none when `paths` is not an object.
pub open spec fn operations_of(doc: JsonValue, version: SpecVersion) -> Seq<OperationView> {
    match object_of(field(doc, "paths"@)) {
        Some(entries) => paths_ops(entries, doc, version),
        None => Seq::<OperationView>::empty(),
    }
}

/// The `info` block, with defaults for a missing title and version; an
/// error when the document has no `info`.
pub open spec fn info_of(doc: JsonValue) -> Result<ApiInfoView, ErrorView> {
    match field(doc, "info"@) {
        None => Err(ErrorView::InvalidSpec("missing 'info' field"@)),
        Some(i) => Ok(
            ApiInfoView {
                title: or_text(str_field(i, "title"@), "API"@),
                version: or_text(str_field(i, "version"@), "0.0.1"@),
                description: str_field(i, "description"@),
            },
        ),
    }
}

/// The server URL of a Swagger 2.0 document: first scheme, host and base path.
pub open spec fn v2_server(doc: JsonValue) -> Seq<char> {
    let host = or_text(str_field(doc, "host"@), "localhost"@);
    let base = or_text(str_field(doc, "basePath"@), "/"@);
    let scheme = match array_of(field(doc, "schemes"@)) {
        Some(a) => if a.len() > 0 {
            or_text(str_of(Some(a[0])), "https"@)
        } else {
            "https"@
        },
        None => "https"@,
    };
    scheme + "://"@ + host + trim_end(base, '/')
}

/// The string `url` members of the server objects, in order.
pub open spec fn server_urls(items: Seq<JsonValue>) -> Seq<Seq<char>>
    decreases items.len(),
{
    if items.len() == 0 {
        Seq::<Seq<char>>::empty()
    } else {
        let rest = server_urls(items.drop_last());
        match str_field(items.last(), "url"@) {
            Some(u) => rest.push(u),
            None => rest,
        }
    }
}

/// The servers of an OpenAPI 3 document: the `url` of each server object;
/// `/` when it gives none, so that there is always at least one.
pub open spec fn v3_servers(doc: JsonValue) -> Seq<Seq<char>> {
    let urls = match array_of(field(doc, "servers"@)) {
        Some(a) => server_urls(a),
        None => Seq::<Seq<char>>::empty(),
    };
    if urls.len() == 0 {
        seq!["/"@]
    } else {
        urls
    }
}

/// A Swagger 2.0 document read.
pub open spec fn parsed_v2(doc: JsonValue) -> Result<ApiSpecView, ErrorView> {
    match info_of(doc) {
        Err(e) => Err(e),
        Ok(info) => Ok(
            ApiSpecView {
                info: info,
                servers: seq![v2_server(doc)],
                operations: operations_of(doc, SpecVersion::V2),
            },
        ),
    }
}

/// An OpenAPI 3 document read.
pub open spec fn parsed_v3(doc: JsonValue) -> Result<ApiSpecView, ErrorView> {
    match info_of(doc) {
        Err(e) => Err(e),
        Ok(info) => Ok(
            ApiSpecView {
                info: info,
                servers: v3_servers(doc),
                operations: operations_of(doc, SpecVersion::V3),
            },
        ),
    }
}

/// Whether the string field `key` of `doc` starts with `prefix`.
pub open spec fn declares(doc: JsonValue, key: Seq<char>, prefix: Seq<char>) -> bool {
    match str_field(doc, key) {
        Some(v) => has_prefix(v, prefix),
        None => false,
    }
}

/// The message of the error for a document of no supported version.
pub open spec fn unsupported_message(source: Seq<char>) -> Seq<char> {
    "'"@ + source
        + "' does not declare a supported OpenAPI version (swagger: 2.x or openapi: 3.x)"@
}

/// A document read: Swagger 2.x when `swagger` starts with `2.`, else
/// OpenAPI 3.x when `openapi` starts with `3.`, else an error.
pub open spec fn parsed(doc: JsonValue, source: Seq<char>) -> Result<ApiSpecView, ErrorView> {
    if declares(doc, "swagger"@, "2."@) {
        parsed_v2(doc)
    } else if declares(doc, "openapi"@, "3."@) {
        parsed_v3(doc)
    } else {
        Err(ErrorView::UnsupportedVersion(unsupported_message(source)))
    }
}

/// The view of a read's outcome.
/// The document that a text holds: its JSON reading where there is one,
/// else its YAML reading; where neither reads, the YAML error, prefixed.
pub open spec fn document_reading(text: Seq<char>) -> Result<JsonValue, Seq<char>> {
    match json_reading(text) {
        Some(d) => Ok(d),
        None => match yaml_reading(text) {
            Ok(d) => Ok(d),
            Err(e) => Err("not valid JSON or YAML: "@ + e),
        },
    }
}

pub open spec fn outcome<T: View>(r: Result<T, Error>) -> Result<T::V, ErrorView> {
    match r {
        Ok(x) => Ok(x@),
        Err(e) => Err(e@),
    }
}

/// The views of a sequence of operations.
pub open spec fn ops_view(v: Seq<Operation>) -> Seq<OperationView> {
    v.map_values(|o: Operation| o@)
}

/// The views of a sequence of parameters.
pub open spec fn params_view(v: Seq<Parameter>) -> Seq<ParameterView> {
    v.map_values(|p: Parameter| p@)
}

/// The values behind a sequence of references.
pub open spec fn derefs<'a>(v: Seq<Held<'a>>) -> Seq<JsonValue> {
    v.map_values(|h: Held<'a>| held_value(h))
}


// ── Executable reading ────────────────────────────────────────────────────────

/// What a schema object says of a parameter.
pub fn parse_schema_obj(s: &JsonValue) -> (r: Schema)
    ensures
        r@ == schema_of(*s),
        match field(*s, "default"@) {
            Some(JsonValue::Str(d)) => plain_text(d@) ==> r@.default == Some(d@),
            _ => true,
        },
{
    let t = text_or(s, "type", "string");
    let schema_type = if str_eq(t.as_str(), "integer") {
        SchemaType::Integer
    } else if str_eq(t.as_str(), "number") {
        SchemaType::Number
    } else if str_eq(t.as_str(), "boolean") {
        SchemaType::Boolean
    } else if str_eq(t.as_str(), "array") {
        SchemaType::Array
    } else if str_eq(t.as_str(), "object") {
        SchemaType::Object
    } else {
        SchemaType::String
    };
    let enum_values = match s.get("enum") {
        Some(e) => match e.as_array() {
            Some(items) => Some(strings_of(items)),
            None => None,
        },
        None => None,
    };
    let default = match s.get("default") {
        Some(d) => {
            let text = compact_text(d);
            proof {
                if let JsonValue::Str(t) = d {
                    if plain_text(t@) {
                        lemma_unquote(t@);
                    }
                }
            }
            Some(trim_matches(text.as_str(), '"'))
        },
        None => None,
    };
    Schema { schema_type, enum_values, default }
}

/// Resolve a `{ "$ref": "#/components/..." }` reference within the same document.
/// Returns `None` if the value is not a `$ref` or the target cannot be found.
pub fn resolve_ref(value: &JsonValue, root: &JsonValue) -> (r: Option<JsonValue>)
    ensures
        r == ref_target(*value, *root),
{
    let ref_str = match str_field_of(value, "$ref") {
        Some(x) => x,
        None => return None,
    };
    let cs = chars_of(ref_str);
    if cs.len() == 0 || cs[0] != '#' {
        return None;
    }
    let pointer = string_of(&cs, 1, cs.len());
    proof {
        assert(cs@.subrange(1, cs@.len() as int) =~= ref_str@.drop_first());
    }
    pointer_of(root, pointer.as_str())
}

/// A parameter object: where it stands in the document, or the target that
/// its `$ref` resolved to.
pub enum Held<'a> {
    Here(&'a JsonValue),
    Got(JsonValue),
}

/// The value that a held parameter object is.
pub open spec fn held_value<'a>(h: Held<'a>) -> JsonValue {
    match h {
        Held::Here(r) => *r,
        Held::Got(v) => v,
    }
}

impl<'a> Held<'a> {
    /// The value held.
    pub fn value<'b>(&'b self) -> (r: &'b JsonValue)
        ensures
            *r == held_value(*self),
    {
        match self {
            Held::Here(r) => r,
            Held::Got(v) => v,
        }
    }
}

/// `value` with a resolvable `$ref` replaced by its target.
fn resolve_or_self<'a>(value: &'a JsonValue, root: &JsonValue) -> (r: Held<'a>)
    ensures
        held_value(r) == resolved(*value, *root),
{
    match resolve_ref(value, root) {
        Some(t) => Held::Got(t),
        None => Held::Here(value),
    }
}

/// A string in double quotes, with no quote of its own at either end, is
/// itself once the quotes are trimmed.
proof fn lemma_unquote(t: Seq<char>)
    requires
        plain_text(t),
    ensures
        trim_both(seq!['"'] + t + seq!['"'], '"') == t,
{
    let q = seq!['"'] + t + seq!['"'];
    assert(q[0] == '"');
    assert(q.drop_first() =~= t + seq!['"']);
    let u = t + seq!['"'];
    if t.len() == 0 {
        assert(u =~= seq!['"']);
        assert(u.drop_first() =~= Seq::<char>::empty());
        assert(trim_start(u.drop_first(), '"') == Seq::<char>::empty());
        assert(u[0] == '"');
        assert(trim_start(u, '"') == Seq::<char>::empty());
        assert(trim_start(q, '"') == trim_start(u, '"'));
        assert(trim_end(Seq::<char>::empty(), '"') == Seq::<char>::empty());
        assert(trim_both(q, '"') =~= t);
    } else {
        assert(t[0] != '"');
        assert(u[0] == t[0]);
        assert(trim_start(u, '"') == u);
        assert(trim_start(q, '"') == u);
        assert(u.last() == '"');
        assert(u.drop_last() =~= t);
        assert(t.last() == t[t.len() - 1]);
        assert(trim_end(t, '"') == t);
        assert(trim_end(u, '"') == t);
        assert(trim_both(q, '"') == t);
    }
}

impl SpecLoader {
    /// The parameter that a parameter object describes.
    pub fn parse_parameter(p: &JsonValue, version: SpecVersion) -> (r: Parameter)
        ensures
            r@ == parameter_of(*p, version),
    {
        let name = text_or(p, "name", "param");
        let dashed = replace_char_str(name.as_str(), '_', "-");
        let cli_name = to_lowercase(dashed.as_str());
        let loc = text_or(p, "in", "query");
        let location = if str_eq(loc.as_str(), "path") {
            ParamIn::Path
        } else if str_eq(loc.as_str(), "header") {
            ParamIn::Header
        } else if str_eq(loc.as_str(), "cookie") {
            ParamIn::Cookie
        } else {
            ParamIn::Query
        };
        let required = bool_or(p, "required", false) || location == ParamIn::Path;
        let schema = match p.get("schema") {
            Some(sv) => parse_schema_obj(sv),
            None => if version == SpecVersion::V2 {
                parse_schema_obj(p)
            } else {
                Schema::default()
            },
        };
        let description = opt_text_of(p, "description");
        Parameter { name, cli_name, location, required, schema, description }
    }

    /// The method that a method key names; `GET` for unknown names.
    pub fn parse_method(s: &str) -> (r: HttpMethod)
        ensures
            r == method_from_name(s@),
    {
        let l = to_ascii_lowercase(s);
        let ls = l.as_str();
        if str_eq(ls, "get") {
            HttpMethod::Get
        } else if str_eq(ls, "post") {
            HttpMethod::Post
        } else if str_eq(ls, "put") {
            HttpMethod::Put
        } else if str_eq(ls, "delete") {
            HttpMethod::Delete
        } else if str_eq(ls, "patch") {
            HttpMethod::Patch
        } else if str_eq(ls, "head") {
            HttpMethod::Head
        } else if str_eq(ls, "options") {
            HttpMethod::Options
        } else {
            HttpMethod::Get
        }
    }
}

/// `ps` without the parameters keyed as `name` in `loc`.
fn retain_other<'a>(ps: Vec<Held<'a>>, name: &str, loc: &str, root: &JsonValue) -> (r: Vec<
    Held<'a>,
>)
    ensures
        derefs(r@) == without_key(derefs(ps@), name@, loc@, *root),
{
    let ghost orig = ps@;
    assert(orig.len() == ps.len());
    let mut ps = ps;
    let mut r: Vec<Held<'a>> = Vec::new();
    let mut i: usize = 0;
    proof {
        assert(orig.skip(0) =~= orig);
    }
    while ps.len() > 0
        invariant
            i <= orig.len(),
            orig.len() <= usize::MAX,
            ps@ == orig.skip(i as int),
            derefs(r@) == without_key(derefs(orig.take(i as int)), name@, loc@, *root),
        decreases ps.len(),
    {
        proof {
            assert(derefs(orig.take(i + 1)).drop_last() =~= derefs(orig.take(i as int)));
            assert(orig.skip(i as int)[0] == orig[i as int]);
            assert(derefs(orig.take(i + 1)).last() == held_value(orig[i as int]));
        }
        let ep = ps.remove(0);
        proof {
            assert(ps@ =~= orig.skip(i + 1));
        }
        let key = resolve_or_self(ep.value(), root);
        let same_name = match str_field_of(key.value(), "name") {
            Some(x) => str_eq(x, name),
            None => false,
        };
        let same_in = match str_field_of(key.value(), "in") {
            Some(x) => str_eq(x, loc),
            None => false,
        };
        let ghost before = r@;
        let ghost epv = held_value(ep);
        if !(same_name && same_in) {
            r.push(ep);
            proof {
                assert(derefs(r@) =~= derefs(before).push(epv));
            }
        }
        i = i + 1;
    }
    proof {
        assert(orig.take(orig.len() as int) =~= orig);
    }
    r
}

/// The merged parameter list of an operation.
fn merge_params<'a>(
    path_params: &'a [JsonValue],
    op_val: &'a JsonValue,
    root: &'a JsonValue,
) -> (r: Vec<Held<'a>>)
    ensures
        derefs(r@) == match array_of(field(*op_val, "parameters"@)) {
            Some(a) => merged_params(path_params@, a, *root),
            None => path_params@,
        },
{
    let mut merged: Vec<Held<'a>> = Vec::new();
    let mut i: usize = 0;
    while i < path_params.len()
        invariant
            i <= path_params.len(),
            derefs(merged@) == path_params@.take(i as int),
        decreases path_params.len() - i,
    {
        let ghost before = merged@;
        merged.push(Held::Here(&path_params[i]));
        proof {
            assert(derefs(merged@) =~= derefs(before).push(path_params@[i as int]));
            assert(derefs(merged@) =~= path_params@.take(i + 1));
        }
        i = i + 1;
    }
    proof {
        assert(path_params@.take(path_params@.len() as int) =~= path_params@);
    }
    let arr = match op_val.get("parameters") {
        Some(x) => x.as_array(),
        None => None,
    };
    match arr {
        Some(a) => {
            let mut k: usize = 0;
            while k < a.len()
                invariant
                    k <= a.len(),
                    derefs(merged@) == merged_params(path_params@, a@.take(k as int), *root),
                decreases a.len() - k,
            {
                proof {
                    assert(a@.take(k + 1).drop_last() =~= a@.take(k as int));
                }
                let p = resolve_or_self(&a[k], root);
                let ghost pv = held_value(p);
                let name = text_or(p.value(), "name", "");
                let loc = text_or(p.value(), "in", "");
                proof {
                    reveal_strlit("");
                    assert(""@ =~= Seq::<char>::empty());
                }
                let ghost before = derefs(merged@);
                let mut kept = retain_other(merged, name.as_str(), loc.as_str(), root);
                let ghost kept_v = derefs(kept@);
                kept.push(p);
                proof {
                    assert(derefs(kept@) =~= kept_v.push(pv));
                }
                merged = kept;
                k = k + 1;
            }
            proof {
                assert(a@.take(a@.len() as int) =~= a@);
            }
            merged
        },
        None => merged,
    }
}

impl SpecLoader {
    /// The operation that an operation object describes.
    pub fn parse_operation(
        method: HttpMethod,
        path: &str,
        op_val: &JsonValue,
        path_params: &[JsonValue],
        spec: &JsonValue,
        version: SpecVersion,
    ) -> (r: Operation)
        ensures
            r@ == operation_of(method, path@, *op_val, path_params@, *spec, version),
    {
        let operation_id = match str_field_of(op_val, "operationId") {
            Some(id) => copy_str(id),
            None => generate_operation_id(method.key(), path),
        };
        let command_name = to_kebab_case(operation_id.as_str());
        let summary = opt_text_of(op_val, "summary");
        let description = opt_text_of(op_val, "description");
        let tags = match op_val.get("tags") {
            Some(t) => match t.as_array() {
                Some(items) => strings_of(items),
                None => Vec::new(),
            },
            None => Vec::new(),
        };
        proof {
            assert(texts(Seq::<String>::empty()) =~= Seq::<Seq<char>>::empty());
        }
        let merged = merge_params(path_params, op_val, spec);
        let ghost merged_v = derefs(merged@);
        let mut parameters: Vec<Parameter> = Vec::new();
        let mut request_body: Option<RequestBody> = None;
        let mut i: usize = 0;
        while i < merged.len()
            invariant
                i <= merged.len(),
                merged_v == derefs(merged@),
                params_view(parameters@) == params_of(merged_v.take(i as int), *spec, version).0,
                opt_body(request_body) == params_of(merged_v.take(i as int), *spec, version).1,
            decreases merged.len() - i,
        {
            proof {
                assert(merged_v.take(i + 1).drop_last() =~= merged_v.take(i as int));
                assert(merged_v.take(i + 1).last() == held_value(merged@[i as int]));
            }
            let held = resolve_or_self(merged[i].value(), spec);
            let p = held.value();
            let loc = text_or(p, "in", "query");
            if str_eq(loc.as_str(), "body") && version == SpecVersion::V2 {
                request_body = Some(
                    RequestBody {
                        required: bool_or(p, "required", false),
                        description: opt_text_of(p, "description"),
                    },
                );
            } else {
                let ghost before = parameters@;
                let param = Self::parse_parameter(p, version);
                parameters.push(param);
                proof {
                    assert(params_view(parameters@) =~= params_view(before).push(param@));
                }
            }
            i = i + 1;
        }
        proof {
            assert(merged_v.take(merged_v.len() as int) =~= merged_v);
        }
        if version == SpecVersion::V3 {
            match op_val.get("requestBody") {
                Some(rb) => {
                    request_body = Some(
                        RequestBody {
                            required: bool_or(rb, "required", false),
                            description: opt_text_of(rb, "description"),
                        },
                    );
                },
                None => {},
            }
        }
        Operation {
            operation_id,
            command_name,
            method,
            path: copy_str(path),
            summary,
            description,
            parameters,
            request_body,
            tags,
        }
    }
}


/// Appends the operation under the method key `name` of a path item, if any.
fn push_op_at(
    ops: &mut Vec<Operation>,
    name: &str,
    path: &str,
    item: &JsonValue,
    path_params: &[JsonValue],
    root: &JsonValue,
    version: SpecVersion,
)
    requires
        path_params@ == params_array(*item),
    ensures
        ops_view(final(ops)@) == ops_view(old(ops)@) + op_at(name@, path@, *item, *root, version),
{
    let ghost before = ops@;
    reveal(op_at);
    match item.get(name) {
        Some(op_val) => {
            let method = SpecLoader::parse_method(name);
            let op = SpecLoader::parse_operation(method, path, op_val, path_params, root, version);
            ops.push(op);
            proof {
                assert(ops_view(ops@) =~= ops_view(before) + op_at(
                    name@,
                    path@,
                    *item,
                    *root,
                    version,
                ));
            }
        },
        None => {
            proof {
                assert(ops_view(ops@) =~= ops_view(before) + op_at(
                    name@,
                    path@,
                    *item,
                    *root,
                    version,
                ));
            }
        },
    }
}

/// The parameters array of a path item.
fn params_array_of(item: &JsonValue) -> (r: &[JsonValue])
    ensures
        r@ == params_array(*item),
{
    match item.get("parameters") {
        Some(x) => match x {
            JsonValue::Array(a) => a.as_slice(),
            _ => &[],
        },
        None => &[],
    }
}

/// Appends the operations of one path item.
fn push_path_item_ops(
    ops: &mut Vec<Operation>,
    path: &str,
    item: &JsonValue,
    root: &JsonValue,
    version: SpecVersion,
)
    ensures
        ops_view(final(ops)@) == ops_view(old(ops)@) + path_item_ops(path@, *item, *root, version),
{
    let path_params = params_array_of(item);
    let ghost s0 = ops_view(ops@);
    push_op_at(ops, "get", path, item, path_params, root, version);
    push_op_at(ops, "post", path, item, path_params, root, version);
    push_op_at(ops, "put", path, item, path_params, root, version);
    push_op_at(ops, "delete", path, item, path_params, root, version);
    push_op_at(ops, "patch", path, item, path_params, root, version);
    push_op_at(ops, "head", path, item, path_params, root, version);
    push_op_at(ops, "options", path, item, path_params, root, version);
    proof {
        assert(ops_view(ops@) =~= s0 + path_item_ops(path@, *item, *root, version));
    }
}

impl SpecLoader {
    /// All operations of a document.
    pub fn parse_paths(spec: &JsonValue, version: SpecVersion) -> (r: Vec<Operation>)
        ensures
            ops_view(r@) == operations_of(*spec, version),
    {
        let mut ops: Vec<Operation> = Vec::new();
        let paths = match spec.get("paths") {
            Some(p) => match p.as_object() {
                Some(entries) => entries,
                None => {
                    proof {
                        assert(ops_view(ops@) =~= Seq::<OperationView>::empty());
                    }
                    return ops;
                },
            },
            None => {
                proof {
                    assert(ops_view(ops@) =~= Seq::<OperationView>::empty());
                }
                return ops;
            },
        };
        let mut i: usize = 0;
        proof {
            assert(ops_view(ops@) =~= paths_ops(paths@.take(0), *spec, version));
        }
        while i < paths.len()
            invariant
                i <= paths.len(),
                ops_view(ops@) == paths_ops(paths@.take(i as int), *spec, version),
            decreases paths.len() - i,
        {
            proof {
                assert(paths@.take(i + 1).drop_last() =~= paths@.take(i as int));
            }
            let path = paths[i].0.as_str();
            let item = &paths[i].1;
            push_path_item_ops(&mut ops, path, item, spec, version);
            i = i + 1;
        }
        proof {
            assert(paths@.take(paths@.len() as int) =~= paths@);
        }
        ops
    }

    /// The `info` block of a document.
    pub fn parse_info(spec: &JsonValue) -> (r: Result<ApiInfo, Error>)
        ensures
            outcome(r) == info_of(*spec),
    {
        match spec.get("info") {
            None => Err(Error::InvalidSpec(copy_str("missing 'info' field"))),
            Some(info_val) => Ok(
                ApiInfo {
                    title: text_or(info_val, "title", "API"),
                    version: text_or(info_val, "version", "0.0.1"),
                    description: opt_text_of(info_val, "description"),
                },
            ),
        }
    }

    /// A Swagger 2.0 document read.
    pub fn parse_v2(spec: &JsonValue) -> (r: Result<ApiSpec, Error>)
        ensures
            outcome(r) == parsed_v2(*spec),
    {
        let info = match Self::parse_info(spec) {
            Ok(i) => i,
            Err(e) => return Err(e),
        };
        let host = text_or(spec, "host", "localhost");
        let base_path = text_or(spec, "basePath", "/");
        let scheme = match spec.get("schemes") {
            Some(s) => match s.as_array() {
                Some(a) => if a.len() > 0 {
                    match a[0].as_str() {
                        Some(x) => copy_str(x),
                        None => copy_str("https"),
                    }
                } else {
                    copy_str("https")
                },
                None => copy_str("https"),
            },
            None => copy_str("https"),
        };
        let mut server_url = scheme;
        push_str(&mut server_url, "://");
        push_str(&mut server_url, host.as_str());
        let trimmed = trim_end_matches(base_path.as_str(), '/');
        push_str(&mut server_url, trimmed.as_str());
        let operations = Self::parse_paths(spec, SpecVersion::V2);
        let mut servers: Vec<String> = Vec::new();
        servers.push(server_url);
        let r = ApiSpec { info, servers, operations };
        proof {
            assert(texts(r.servers@) =~= seq![v2_server(*spec)]);
        }
        Ok(r)
    }

    /// An OpenAPI 3 document read.
    pub fn parse_v3(spec: &JsonValue) -> (r: Result<ApiSpec, Error>)
        ensures
            outcome(r) == parsed_v3(*spec),
    {
        let info = match Self::parse_info(spec) {
            Ok(i) => i,
            Err(e) => return Err(e),
        };
        let mut servers: Vec<String> = Vec::new();
        let arr = match spec.get("servers") {
            Some(s) => s.as_array(),
            None => None,
        };
        match arr {
            Some(a) => {
                let mut i: usize = 0;
                while i < a.len()
                    invariant
                        i <= a.len(),
                        texts(servers@) == server_urls(a@.take(i as int)),
                    decreases a.len() - i,
                {
                    proof {
                        assert(a@.take(i + 1).drop_last() =~= a@.take(i as int));
                    }
                    let ghost before = servers@;
                    match str_field_of(&a[i], "url") {
                        Some(u) => {
                            servers.push(copy_str(u));
                            proof {
                                assert(texts(servers@) =~= texts(before).push(u@));
                            }
                        },
                        None => {},
                    }
                    i = i + 1;
                }
                proof {
                    assert(a@.take(a@.len() as int) =~= a@);
                }
            },
            None => {},
        }
        if servers.len() == 0 {
            servers.push(copy_str("/"));
            proof {
                assert(texts(servers@) =~= seq!["/"@]);
            }
        }
        let operations = Self::parse_paths(spec, SpecVersion::V3);
        Ok(ApiSpec { info, servers, operations })
    }

    /// Read a document: Swagger 2.x or OpenAPI 3.x, as it declares.
    /// `source` names the document in the error for any other version.
    pub fn parse(value: &JsonValue, source: &str) -> (r: Result<ApiSpec, Error>)
        ensures
            outcome(r) == parsed(*value, source@),
    {
        let is_v2 = match str_field_of(value, "swagger") {
            Some(v) => starts_with(v, "2."),
            None => false,
        };
        if is_v2 {
            return Self::parse_v2(value);
        }
        let is_v3 = match str_field_of(value, "openapi") {
            Some(v) => starts_with(v, "3."),
            None => false,
        };
        if is_v3 {
            return Self::parse_v3(value);
        }
        let mut message = copy_str("'");
        push_str(&mut message, source);
        push_str(
            &mut message,
            "' does not declare a supported OpenAPI version (swagger: 2.x or openapi: 3.x)",
        );
        Err(Error::UnsupportedVersion(message))
    }

    /// Whether a spec source is fetched over HTTP (rather than read from a file).
    pub fn is_remote(source: &str) -> (r: bool)
        ensures
            r == (has_prefix(source@, "http://"@) || has_prefix(source@, "https://"@)),
    {
        starts_with(source, "http://") || starts_with(source, "https://")
    }

    /// The document in fetched content, from what reading the content as
    /// JSON and as YAML gave: the JSON reading where there is one, else the
    /// YAML reading; where neither reads, the YAML error is the reason.
    pub fn document_from(as_json: Option<JsonValue>, as_yaml: Result<JsonValue, String>) -> (r:
        Result<JsonValue, String>)
        ensures
            match as_json {
                Some(d) => r == Ok::<JsonValue, String>(d),
                None => match as_yaml {
                    Ok(d) => r == Ok::<JsonValue, String>(d),
                    Err(e) => r is Err && r->Err_0@ == "not valid JSON or YAML: "@ + e@,
                },
            },
    {
        match as_json {
            Some(d) => Ok(d),
            None => match as_yaml {
                Ok(d) => Ok(d),
                Err(e) => {
                    let mut message = copy_str("not valid JSON or YAML: ");
                    push_str(&mut message, e.as_str());
                    Err(message)
                },
            },
        }
    }

    /// The document that fetched text holds: its JSON reading, else its
    /// YAML reading; where neither reads, the reason.
    pub fn document_of_text(text: &str) -> (r: Result<JsonValue, String>)
        ensures
            match r {
                Ok(d) => document_reading(text@) == Ok::<JsonValue, Seq<char>>(d),
                Err(e) => document_reading(text@) == Err::<JsonValue, Seq<char>>(e@),
            },
    {
        match read_json(text) {
            Some(d) => Ok(d),
            None => Self::document_from(None, read_yaml(text)),
        }
    }

    /// Load a spec from `source`, given what fetching it gave: its text, or
    /// the reason it could not be had. A read failure, and text that is
    /// neither JSON nor YAML, become a `SpecLoad` error; a document is parsed.
    pub fn load(source: &str, fetched: Result<String, String>) -> (r: Result<ApiSpec, Error>)
        ensures
            match fetched {
                Ok(text) => match document_reading(text@) {
                    Ok(doc) => outcome(r) == parsed(doc, source@),
                    Err(m) => outcome(r) == Err::<ApiSpecView, ErrorView>(
                        ErrorView::SpecLoad { url: source@, message: m },
                    ),
                },
                Err(m) => outcome(r) == Err::<ApiSpecView, ErrorView>(
                    ErrorView::SpecLoad { url: source@, message: m@ },
                ),
            },
    {
        match fetched {
            Ok(text) => match Self::document_of_text(text.as_str()) {
                Ok(doc) => Self::parse(&doc, source),
                Err(message) => Err(Error::SpecLoad { url: copy_str(source), message }),
            },
            Err(message) => Err(Error::SpecLoad { url: copy_str(source), message }),
        }
    }
}

} // verus!
