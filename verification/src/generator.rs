//! CLI Generator - Convert OpenAPI to CLI commands

use vstd::prelude::*;

use crate::json::{field, object_of, str_field, JsonValue};
use crate::spec::{
    bool_or, is_template, or_bool, or_text, params_array, str_field_of, template_name,
    text_or,
};
use crate::text::{
    ascii_upper, char_to_uppercase, char_upper, chars_of, copy_str, push_str,
    replace_char, replace_char_str, replace_all, replace_str, split_char, split_on, str_eq,
    str_lower, string_of, to_ascii_uppercase, to_lowercase, trim_end, trim_end_matches,
    trim_start, trim_start_matches,
};

verus! {

/// Generates CLI commands from OpenAPI spec
pub struct CliGenerator {
    commands: Vec<CliCommand>,
}

#[derive(Debug, Clone, Copy, PartialEq, Eq, Structural)]
pub enum ParamLocation {
    Path,
    Query,
    Header,
    Body,
}

#[derive(Debug, Clone)]
pub struct CliCommand {
    pub name: String,
    pub path: String,
    pub method: String,
    pub description: String,
    pub params: Vec<CliParam>,
    pub has_body: bool,
}

#[derive(Debug, Clone)]
pub struct CliParam {
    pub name: String,
    pub location: ParamLocation,
    pub required: bool,
    pub param_type: String,
    pub description: String,
}

pub struct CliParamView {
    pub name: Seq<char>,
    pub location: ParamLocation,
    pub required: bool,
    pub param_type: Seq<char>,
    pub description: Seq<char>,
}

pub struct CliCommandView {
    pub name: Seq<char>,
    pub path: Seq<char>,
    pub method: Seq<char>,
    pub description: Seq<char>,
    pub params: Seq<CliParamView>,
    pub has_body: bool,
}

impl View for CliParam {
    type V = CliParamView;

    open spec fn view(&self) -> CliParamView {
        CliParamView {
            name: self.name@,
            location: self.location,
            required: self.required,
            param_type: self.param_type@,
            description: self.description@,
        }
    }
}

/// The views of a sequence of generator parameters.
pub open spec fn cli_params_view(v: Seq<CliParam>) -> Seq<CliParamView> {
    v.map_values(|p: CliParam| p@)
}

impl View for CliCommand {
    type V = CliCommandView;

    open spec fn view(&self) -> CliCommandView {
        CliCommandView {
            name: self.name@,
            path: self.path@,
            method: self.method@,
            description: self.description@,
            params: cli_params_view(self.params@),
            has_body: self.has_body,
        }
    }
}

/// The views of a sequence of commands.
pub open spec fn commands_view(v: Seq<CliCommand>) -> Seq<CliCommandView> {
    v.map_values(|c: CliCommand| c@)
}

impl View for CliGenerator {
    type V = Seq<CliCommandView>;

    closed spec fn view(&self) -> Seq<CliCommandView> {
        commands_view(self.commands@)
    }
}

// ── Command names ─────────────────────────────────────────────────────────────

/// What one path segment adds to a command name: a hyphen, then the segment,
/// or the name inside it for a template segment.
pub open spec fn name_segment(p: Seq<char>) -> Seq<char> {
    "-"@ + if is_template(p) {
        template_name(p)
    } else {
        p
    }
}

/// The segments' contributions, concatenated.
pub open spec fn name_segments(segs: Seq<Seq<char>>) -> Seq<char>
    decreases segs.len(),
{
    if segs.len() == 0 {
        Seq::<char>::empty()
    } else {
        name_segments(segs.drop_last()) + name_segment(segs.last())
    }
}

/// The command name for a verb and a path: `/users/{id}` with `get` gives
/// `get-users-id`.
pub open spec fn command_name_for(verb: Seq<char>, path: Seq<char>) -> Seq<char> {
    verb + name_segments(split_on(trim_start(path, '/'), '/'))
}

// ── Reading a spec ────────────────────────────────────────────────────────────

/// The location that an `in` value gives a generator parameter.
pub open spec fn param_location_of(l: Seq<char>) -> ParamLocation {
    if l == "path"@ {
        ParamLocation::Path
    } else if l == "header"@ {
        ParamLocation::Header
    } else if l == "body"@ {
        ParamLocation::Body
    } else {
        ParamLocation::Query
    }
}

/// The `type` of a parameter's `schema`.
pub open spec fn schema_type_name(p: JsonValue) -> Option<Seq<char>> {
    match field(p, "schema"@) {
        Some(s) => str_field(s, "type"@),
        None => None,
    }
}

/// The generator parameter that a parameter object describes.
pub open spec fn cli_param_of(p: JsonValue) -> CliParamView {
    CliParamView {
        name: or_text(str_field(p, "name"@), "unknown"@),
        location: param_location_of(or_text(str_field(p, "in"@), "query"@)),
        required: or_bool(crate::json::bool_field(p, "required"@), false),
        param_type: or_text(schema_type_name(p), "string"@),
        description: or_text(str_field(p, "description"@), Seq::<char>::empty()),
    }
}

/// The generator parameters of a parameters array.
pub open spec fn cli_params_of(items: Seq<JsonValue>) -> Seq<CliParamView>
    decreases items.len(),
{
    if items.len() == 0 {
        Seq::<CliParamView>::empty()
    } else {
        cli_params_of(items.drop_last()).push(cli_param_of(items.last()))
    }
}

/// The command that an operation object gives under `verb` and `path`.
pub open spec fn command_of(verb: Seq<char>, path: Seq<char>, op: JsonValue) -> CliCommandView {
    CliCommandView {
        name: command_name_for(verb, path),
        path: path,
        method: verb.map_values(|c: char| ascii_upper(c)),
        description: or_text(
            str_field(op, "summary"@),
            or_text(str_field(op, "description"@), Seq::<char>::empty()),
        ),
        params: cli_params_of(params_array(op)),
        has_body: field(op, "requestBody"@) is Some,
    }
}

/// The command under the method key `verb` of a path item, if there is one.
#[verifier::opaque]
pub open spec fn command_at(verb: Seq<char>, path: Seq<char>, item: JsonValue) -> Seq<
    CliCommandView,
> {
    match field(item, verb) {
        Some(op) => seq![command_of(verb, path, op)],
        None => Seq::<CliCommandView>::empty(),
    }
}

/// The commands of one path item, in method order get, post, put, delete, patch.
pub open spec fn item_commands(path: Seq<char>, item: JsonValue) -> Seq<CliCommandView> {
    command_at("get"@, path, item) + command_at("post"@, path, item) + command_at(
        "put"@,
        path,
        item,
    ) + command_at("delete"@, path, item) + command_at("patch"@, path, item)
}

/// The commands of the path items, in order.
pub open spec fn paths_commands(entries: Seq<(String, JsonValue)>) -> Seq<CliCommandView>
    decreases entries.len(),
{
    if entries.len() == 0 {
        Seq::<CliCommandView>::empty()
    } else {
        paths_commands(entries.drop_last()) + item_commands(entries.last().0@, entries.last().1)
    }
}

/// The commands that a document gives; none when `paths` is not an object.
pub open spec fn spec_commands(doc: JsonValue) -> Option<Seq<CliCommandView>> {
    match object_of(field(doc, "paths"@)) {
        Some(entries) => Some(paths_commands(entries)),
        None => None,
    }
}

impl CliGenerator {
    /// A generator with no commands.
    pub fn new() -> (r: Self)
        ensures
            r@ == Seq::<CliCommandView>::empty(),
    {
        let r = Self { commands: Vec::new() };
        proof {
            assert(r@ =~= Seq::<CliCommandView>::empty());
        }
        r
    }

    /// Convert path to command name: /users/{id} -> get-users-id
    pub fn make_command_name(&self, verb: &str, path: &str) -> (r: String)
        ensures
            r@ == command_name_for(verb@, path@),
    {
        let trimmed = trim_start_matches(path, '/');
        let parts = split_char(trimmed.as_str(), '/');
        let ghost segs = split_on(trim_start(path@, '/'), '/');
        let mut r = copy_str(verb);
        let mut k: usize = 0;
        proof {
            assert(segs.take(0) =~= Seq::<Seq<char>>::empty());
            assert(r@ =~= verb@ + name_segments(segs.take(0)));
        }
        while k < parts.len()
            invariant
                parts@.len() == segs.len(),
                forall|j: int| 0 <= j < parts@.len() ==> #[trigger] parts@[j]@ == segs[j],
                k <= parts@.len(),
                r@ == verb@ + name_segments(segs.take(k as int)),
            decreases parts.len() - k,
        {
            proof {
                assert(segs.take(k + 1).drop_last() =~= segs.take(k as int));
            }
            let p = chars_of(parts[k].as_str());
            let ghost before = r@;
            push_str(&mut r, "-");
            if p.len() >= 2 && p[0] == '{' && p[p.len() - 1] == '}' {
                let inner = string_of(&p, 1, p.len() - 1);
                push_str(&mut r, inner.as_str());
                proof {
                    assert(p@.take(1) =~= seq!['{']);
                    assert(p@.skip(p@.len() - 1) =~= seq!['}']);
                }
            } else {
                push_str(&mut r, parts[k].as_str());
                proof {
                    if is_template(p@) {
                        assert(p@.take(1)[0] == '{');
                        assert(p@.skip(p@.len() - 1)[0] == '}');
                    }
                }
            }
            proof {
                assert(r@ =~= before + name_segment(p@));
            }
            k = k + 1;
        }
        proof {
            assert(segs.take(segs.len() as int) =~= segs);
        }
        r
    }

    /// Generate CLI commands from OpenAPI spec JSON value
    pub fn generate_from_json(&mut self, spec: &JsonValue) -> (r: Result<(), String>)
        ensures
            spec_commands(*spec) is None ==> r is Err && final(self)@ == old(self)@,
            spec_commands(*spec) matches Some(cs) ==> r is Ok && final(self)@ == old(self)@ + cs,
            r matches Err(m) ==> m@ == "No paths found in spec"@,
    {
        let paths = match spec.get("paths") {
            Some(p) => match p.as_object() {
                Some(entries) => entries,
                None => return Err(copy_str("No paths found in spec")),
            },
            None => return Err(copy_str("No paths found in spec")),
        };
        let ghost start = self@;
        let mut i: usize = 0;
        proof {
            assert(self@ =~= start + paths_commands(paths@.take(0)));
        }
        while i < paths.len()
            invariant
                i <= paths.len(),
                self@ == start + paths_commands(paths@.take(i as int)),
            decreases paths.len() - i,
        {
            proof {
                assert(paths@.take(i + 1).drop_last() =~= paths@.take(i as int));
            }
            let path = paths[i].0.as_str();
            let path_item = &paths[i].1;
            let ghost before = self@;
            match path_item.as_object() {
                Some(_) => {
                    self.add_if_present("get", path, path_item);
                    self.add_if_present("post", path, path_item);
                    self.add_if_present("put", path, path_item);
                    self.add_if_present("delete", path, path_item);
                    self.add_if_present("patch", path, path_item);
                    proof {
                        assert(self@ =~= before + item_commands(path@, *path_item));
                    }
                },
                None => {
                    proof {
                        reveal(command_at);
                        assert(item_commands(path@, *path_item) =~= Seq::<CliCommandView>::empty());
                        assert(self@ =~= before + item_commands(path@, *path_item));
                    }
                },
            }
            proof {
                assert(self@ =~= start + paths_commands(paths@.take(i + 1)));
            }
            i = i + 1;
        }
        proof {
            assert(paths@.take(paths@.len() as int) =~= paths@);
        }
        Ok(())
    }

    /// Adds the command under `verb` of a path item, if there is one.
    fn add_if_present(&mut self, verb: &str, path: &str, item: &JsonValue)
        ensures
            final(self)@ == old(self)@ + command_at(verb@, path@, *item),
    {
        reveal(command_at);
        match item.get(verb) {
            Some(op) => {
                self.add_command(verb, path, op);
            },
            None => {
                proof {
                    assert(self@ =~= old(self)@ + command_at(verb@, path@, *item));
                }
            },
        }
    }

    /// Adds the command that an operation object gives under `verb` and `path`.
    fn add_command(&mut self, verb: &str, path: &str, op: &JsonValue)
        ensures
            final(self)@ == old(self)@.push(command_of(verb@, path@, *op)),
    {
        let name = self.make_command_name(verb, path);
        let description = match str_field_of(op, "summary") {
            Some(s) => copy_str(s),
            None => text_or(op, "description", ""),
        };
        let has_body = op.get("requestBody").is_some();
        let mut params: Vec<CliParam> = Vec::new();
        let arr = match op.get("parameters") {
            Some(x) => x.as_array(),
            None => None,
        };
        match arr {
            Some(parameters) => {
                let mut i: usize = 0;
                while i < parameters.len()
                    invariant
                        i <= parameters.len(),
                        cli_params_view(params@) == cli_params_of(parameters@.take(i as int)),
                    decreases parameters.len() - i,
                {
                    proof {
                        assert(parameters@.take(i + 1).drop_last() =~= parameters@.take(i as int));
                    }
                    let param = Self::parse_cli_param(&parameters[i]);
                    let ghost before = params@;
                    params.push(param);
                    proof {
                        assert(cli_params_view(params@) =~= cli_params_view(before).push(param@));
                    }
                    i = i + 1;
                }
                proof {
                    assert(parameters@.take(parameters@.len() as int) =~= parameters@);
                }
            },
            None => {
                proof {
                    assert(cli_params_view(params@) =~= Seq::<CliParamView>::empty());
                }
            },
        }
        proof {
            reveal_strlit("");
            assert(""@ =~= Seq::<char>::empty());
        }
        let cmd = CliCommand {
            name,
            path: copy_str(path),
            method: to_ascii_uppercase(verb),
            description,
            params,
            has_body,
        };
        let ghost before = self.commands@;
        self.commands.push(cmd);
        proof {
            assert(self@ =~= commands_view(before).push(cmd@));
        }
    }

    /// The generator parameter that a parameter object describes.
    fn parse_cli_param(p: &JsonValue) -> (r: CliParam)
        ensures
            r@ == cli_param_of(*p),
    {
        let name = text_or(p, "name", "unknown");
        let loc = text_or(p, "in", "query");
        let location = if str_eq(loc.as_str(), "path") {
            ParamLocation::Path
        } else if str_eq(loc.as_str(), "header") {
            ParamLocation::Header
        } else if str_eq(loc.as_str(), "body") {
            ParamLocation::Body
        } else {
            ParamLocation::Query
        };
        let required = bool_or(p, "required", false);
        let param_type = match p.get("schema") {
            Some(s) => text_or(s, "type", "string"),
            None => copy_str("string"),
        };
        let description = text_or(p, "description", "");
        proof {
            reveal_strlit("");
            assert(""@ =~= Seq::<char>::empty());
        }
        CliParam { name, location, required, param_type, description }
    }
}

impl Default for CliGenerator {
    fn default() -> (r: Self)
        ensures
            r@ == Seq::<CliCommandView>::empty(),
    {
        Self::new()
    }
}


// ── Generated application code ────────────────────────────────────────────────

/// `s` with its first character uppercased (by `char::to_uppercase`).
pub open spec fn capitalize(s: Seq<char>) -> Seq<char> {
    if s.len() == 0 {
        s
    } else {
        char_upper(s[0]) + s.drop_first()
    }
}

/// The parts, each capitalized, concatenated.
pub open spec fn capitalized(parts: Seq<Seq<char>>) -> Seq<char>
    decreases parts.len(),
{
    if parts.len() == 0 {
        Seq::<char>::empty()
    } else {
        capitalized(parts.drop_last()) + capitalize(parts.last())
    }
}

/// The UpperCamelCase type name for a command name: `get-users-id` gives
/// `GetUsersId`.
pub open spec fn variant_of(name: Seq<char>) -> Seq<char> {
    capitalized(split_on(replace_char(name, '-', "_"@), '_'))
}

/// The Rust field name for a parameter name (hyphens become underscores).
pub open spec fn arg_name_of(name: Seq<char>) -> Seq<char> {
    replace_char(name, '-', "_"@)
}

/// The base URL given, or the placeholder one.
pub open spec fn base_or_default(base: Option<Seq<char>>) -> Seq<char> {
    match base {
        Some(b) => b,
        None => "https://api.example.com"@,
    }
}

/// The start of the generated code, up to the opening of the `Commands` enum.
pub open spec fn app_header(name: Seq<char>) -> Seq<char> {
    "//! "@ + name + " - Auto-generated CLI from OpenAPI spec\n\n"@ + "use anyhow::Result;\n"@
        + "use clap::{Parser, Subcommand};\n"@ + "use reqwest::blocking::Client;\n\n"@
        + "#[derive(Parser, Debug)]\n"@ + "#[command(name = \"cli\")]\n"@
        + "#[command(about = \"Auto-generated CLI from OpenAPI\")]\n"@ + "struct Args {\n"@
        + "    #[command(subcommand)]\n"@ + "    command: Commands,\n"@ + "}\n\n"@
        + "#[derive(Subcommand, Debug)]\n"@ + "enum Commands {\n"@
}

/// The `Commands` variant of one command.
pub open spec fn enum_entry(c: CliCommandView) -> Seq<char> {
    "    /// "@ + c.description + "\n"@ + "    "@ + variant_of(c.name) + "("@ + variant_of(c.name)
        + "),\n"@
}

/// The `Commands` variants, in order.
pub open spec fn enum_entries(cs: Seq<CliCommandView>) -> Seq<char>
    decreases cs.len(),
{
    if cs.len() == 0 {
        Seq::<char>::empty()
    } else {
        enum_entries(cs.drop_last()) + enum_entry(cs.last())
    }
}

/// The struct fields of the path parameters, in order.
pub open spec fn path_fields(ps: Seq<CliParamView>) -> Seq<char>
    decreases ps.len(),
{
    if ps.len() == 0 {
        Seq::<char>::empty()
    } else {
        path_fields(ps.drop_last()) + if ps.last().location == ParamLocation::Path {
            "    /// "@ + ps.last().description + "\n"@ + "    "@ + arg_name_of(ps.last().name)
                + ": String,\n"@
        } else {
            Seq::<char>::empty()
        }
    }
}

/// The struct fields of the query parameters, in order.
pub open spec fn query_fields(ps: Seq<CliParamView>) -> Seq<char>
    decreases ps.len(),
{
    if ps.len() == 0 {
        Seq::<char>::empty()
    } else {
        query_fields(ps.drop_last()) + if ps.last().location == ParamLocation::Query {
            "    /// "@ + ps.last().description + "\n"@ + "    #[arg(long)]\n"@ + "    "@
                + arg_name_of(ps.last().name) + ": Option<String>,\n"@
        } else {
            Seq::<char>::empty()
        }
    }
}

/// The `body` field of a command that takes a request body.
pub open spec fn body_field(has_body: bool) -> Seq<char> {
    if has_body {
        "    /// JSON request body\n"@ + "    #[arg(long)]\n"@ + "    body: Option<String>,\n"@
    } else {
        Seq::<char>::empty()
    }
}

/// The arguments struct of one command.
pub open spec fn struct_block(c: CliCommandView) -> Seq<char> {
    "#[derive(Parser, Debug)]\n"@ + "struct "@ + variant_of(c.name) + " {\n"@ + path_fields(
        c.params,
    ) + query_fields(c.params) + body_field(c.has_body) + "}\n\n"@
}

/// The arguments structs, in order.
pub open spec fn struct_blocks(cs: Seq<CliCommandView>) -> Seq<char>
    decreases cs.len(),
{
    if cs.len() == 0 {
        Seq::<char>::empty()
    } else {
        struct_blocks(cs.drop_last()) + struct_block(cs.last())
    }
}

/// The line that binds `token` to an `Option`: the given token, or the
/// `API_TOKEN` environment variable.
pub open spec fn token_line(token: Option<Seq<char>>) -> Seq<char> {
    match token {
        Some(t) => "    let token = Some(\""@ + t + "\");\n"@,
        None => "    let token = std::env::var(\"API_TOKEN\").ok();\n"@,
    }
}

/// The start of `main`, up to the opening of the `match`.
pub open spec fn main_header(base: Option<Seq<char>>, token: Option<Seq<char>>) -> Seq<char> {
    "fn main() -> Result<()> {\n"@ + "    let args = Args::parse();\n"@
        + "    let client = Client::new();\n"@ + "    let base_url = \""@ + base_or_default(base)
        + "\";\n\n"@ + token_line(token) + "    match args.command {\n"@
}

/// The path with each path parameter's `{name}` replaced, in order, by a
/// `${arg}` placeholder.
pub open spec fn url_path(path: Seq<char>, ps: Seq<CliParamView>) -> Seq<char>
    decreases ps.len(),
{
    if ps.len() == 0 {
        path
    } else {
        let u = url_path(path, ps.drop_last());
        if ps.last().location == ParamLocation::Path {
            replace_all(
                u,
                "{"@ + ps.last().name + "}"@,
                "${"@ + arg_name_of(ps.last().name) + "}"@,
            )
        } else {
            u
        }
    }
}

/// The `.replace(..)` calls that fill the placeholders, in order.
pub open spec fn url_replacements(ps: Seq<CliParamView>) -> Seq<char>
    decreases ps.len(),
{
    if ps.len() == 0 {
        Seq::<char>::empty()
    } else {
        url_replacements(ps.drop_last()) + if ps.last().location == ParamLocation::Path {
            ".replace(\"${"@ + arg_name_of(ps.last().name) + "}\", &args."@ + arg_name_of(
                ps.last().name,
            ) + ")"@
        } else {
            Seq::<char>::empty()
        }
    }
}

/// The statement that builds a command's URL.
pub open spec fn url_code(c: CliCommandView, base: Option<Seq<char>>) -> Seq<char> {
    let template = trim_end(base_or_default(base), '/') + "/"@ + trim_start(
        url_path(c.path, c.params),
        '/',
    );
    let repl = url_replacements(c.params);
    if repl.len() > 0 {
        "let mut url = \""@ + template + "\""@ + repl + ";"@
    } else {
        "let url = \""@ + template + "\";"@
    }
}

/// The query statements, in order.
pub open spec fn query_lines(ps: Seq<CliParamView>) -> Seq<char>
    decreases ps.len(),
{
    if ps.len() == 0 {
        Seq::<char>::empty()
    } else {
        query_lines(ps.drop_last()) + if ps.last().location == ParamLocation::Query {
            "            if let Some(v) = &args."@ + arg_name_of(ps.last().name) + " {\n"@
                + "                request = request.query(&[(\""@ + ps.last().name
                + "\", v)]);\n"@ + "            }\n"@
        } else {
            Seq::<char>::empty()
        }
    }
}

/// The body statements of a command that takes a request body.
pub open spec fn body_lines(has_body: bool) -> Seq<char> {
    if has_body {
        "            if let Some(b) = &args.body {\n"@
            + "                request = request.body(b.clone());\n"@
            + "                request = request.header(\"Content-Type\", \"application/json\");\n"@
            + "            }\n"@
    } else {
        Seq::<char>::empty()
    }
}

/// The start of a command's `match` arm: the URL and the authenticated request.
pub open spec fn arm_head(c: CliCommandView, base: Option<Seq<char>>) -> Seq<char> {
    "        Commands::"@ + variant_of(c.name) + "(args) => {\n"@ + "            "@ + url_code(c, base)
        + "\n"@ + "            let mut request = client."@ + str_lower(c.method) + "(url);\n"@
        + "            if let Some(t) = &token {\n"@
        + "                request = request.bearer_auth(t);\n"@ + "            }\n"@
}

/// The end of a command's `match` arm: sending and printing.
pub open spec fn arm_tail() -> Seq<char> {
    "            let response = request.send()?;\n"@
        + "            println!(\"{}\", response.text()?);\n"@ + "            Ok(())\n"@
        + "        }\n"@
}

/// The `match` arm of one command.
pub open spec fn match_arm(c: CliCommandView, base: Option<Seq<char>>) -> Seq<char> {
    arm_head(c, base) + query_lines(c.params) + body_lines(c.has_body) + arm_tail()
}

/// The `match` arms, in order.
pub open spec fn match_arms(cs: Seq<CliCommandView>, base: Option<Seq<char>>) -> Seq<char>
    decreases cs.len(),
{
    if cs.len() == 0 {
        Seq::<char>::empty()
    } else {
        match_arms(cs.drop_last(), base) + match_arm(cs.last(), base)
    }
}

/// The whole generated program.
pub open spec fn cli_app_code(
    cs: Seq<CliCommandView>,
    name: Seq<char>,
    base: Option<Seq<char>>,
    token: Option<Seq<char>>,
) -> Seq<char> {
    app_header(name) + enum_entries(cs) + "}\n\n"@ + struct_blocks(cs) + main_header(base, token)
        + match_arms(cs, base) + "    }\n"@ + "}\n"@
}

/// The text of an optional string slice.
pub open spec fn opt_str(o: Option<&str>) -> Option<Seq<char>> {
    match o {
        Some(s) => Some(s@),
        None => None,
    }
}

/// `s` with its first character uppercased.
fn capitalize_exec(s: &str) -> (r: String)
    ensures
        r@ == capitalize(s@),
{
    let cs = chars_of(s);
    if cs.len() == 0 {
        return String::new();
    }
    let mut r = char_to_uppercase(cs[0]);
    let rest = string_of(&cs, 1, cs.len());
    push_str(&mut r, rest.as_str());
    proof {
        assert(cs@.subrange(1, cs@.len() as int) =~= cs@.drop_first());
    }
    r
}

/// The UpperCamelCase type name for a command name.
pub fn variant_name(name: &str) -> (r: String)
    ensures
        r@ == variant_of(name@),
{
    let underscored = replace_char_str(name, '-', "_");
    let parts = split_char(underscored.as_str(), '_');
    let ghost ps = split_on(replace_char(name@, '-', "_"@), '_');
    let mut r = String::new();
    let mut k: usize = 0;
    while k < parts.len()
        invariant
            parts@.len() == ps.len(),
            forall|j: int| 0 <= j < parts@.len() ==> #[trigger] parts@[j]@ == ps[j],
            k <= parts@.len(),
            r@ == capitalized(ps.take(k as int)),
        decreases parts.len() - k,
    {
        proof {
            assert(ps.take(k + 1).drop_last() =~= ps.take(k as int));
        }
        let c = capitalize_exec(parts[k].as_str());
        push_str(&mut r, c.as_str());
        k = k + 1;
    }
    proof {
        assert(ps.take(ps.len() as int) =~= ps);
    }
    r
}

/// Appends the arguments struct of one command.
fn write_struct(code: &mut String, cmd: &CliCommand)
    ensures
        final(code)@ == old(code)@ + struct_block(cmd@),
{
    let ghost start = code@;
    let variant = variant_name(cmd.name.as_str());
    push_str(code, "#[derive(Parser, Debug)]\n");
    push_str(code, "struct ");
    push_str(code, variant.as_str());
    push_str(code, " {\n");
    let ghost ps = cmd@.params;
    let ghost mid0 = code@;
    let mut i: usize = 0;
    while i < cmd.params.len()
        invariant
            i <= cmd.params.len(),
            ps == cli_params_view(cmd.params@),
            code@ == mid0 + path_fields(ps.take(i as int)),
        decreases cmd.params.len() - i,
    {
        proof {
            assert(ps.take(i + 1).drop_last() =~= ps.take(i as int));
        }
        let p = &cmd.params[i];
        if p.location == ParamLocation::Path {
            let arg = replace_char_str(p.name.as_str(), '-', "_");
            push_str(code, "    /// ");
            push_str(code, p.description.as_str());
            push_str(code, "\n");
            push_str(code, "    ");
            push_str(code, arg.as_str());
            push_str(code, ": String,\n");
        }
        proof {
            assert(code@ =~= mid0 + path_fields(ps.take(i + 1)));
        }
        i = i + 1;
    }
    let ghost mid1 = code@;
    let mut j: usize = 0;
    while j < cmd.params.len()
        invariant
            j <= cmd.params.len(),
            ps == cli_params_view(cmd.params@),
            code@ == mid1 + query_fields(ps.take(j as int)),
        decreases cmd.params.len() - j,
    {
        proof {
            assert(ps.take(j + 1).drop_last() =~= ps.take(j as int));
        }
        let p = &cmd.params[j];
        if p.location == ParamLocation::Query {
            let arg = replace_char_str(p.name.as_str(), '-', "_");
            push_str(code, "    /// ");
            push_str(code, p.description.as_str());
            push_str(code, "\n");
            push_str(code, "    #[arg(long)]\n");
            push_str(code, "    ");
            push_str(code, arg.as_str());
            push_str(code, ": Option<String>,\n");
        }
        proof {
            assert(code@ =~= mid1 + query_fields(ps.take(j + 1)));
        }
        j = j + 1;
    }
    if cmd.has_body {
        push_str(code, "    /// JSON request body\n");
        push_str(code, "    #[arg(long)]\n");
        push_str(code, "    body: Option<String>,\n");
    }
    push_str(code, "}\n\n");
    proof {
        assert(ps.take(ps.len() as int) =~= ps);
        assert(code@ =~= start + struct_block(cmd@));
    }
}

/// The statement that builds a command's URL.
fn make_url_code(cmd: &CliCommand, base_url: Option<&str>) -> (r: String)
    ensures
        r@ == url_code(cmd@, opt_str(base_url)),
{
    let ghost ps = cmd@.params;
    let mut url_path_s = copy_str(cmd.path.as_str());
    let mut i: usize = 0;
    while i < cmd.params.len()
        invariant
            i <= cmd.params.len(),
            ps == cli_params_view(cmd.params@),
            url_path_s@ == url_path(cmd@.path, ps.take(i as int)),
        decreases cmd.params.len() - i,
    {
        proof {
            assert(ps.take(i + 1).drop_last() =~= ps.take(i as int));
        }
        let p = &cmd.params[i];
        if p.location == ParamLocation::Path {
            let arg = replace_char_str(p.name.as_str(), '-', "_");
            let mut pat = copy_str("{");
            push_str(&mut pat, p.name.as_str());
            push_str(&mut pat, "}");
            let mut rep = copy_str("${");
            push_str(&mut rep, arg.as_str());
            push_str(&mut rep, "}");
            proof {
                reveal_strlit("{");
            }
            url_path_s = replace_str(url_path_s.as_str(), pat.as_str(), rep.as_str());
        }
        i = i + 1;
    }
    let mut repl = String::new();
    let mut j: usize = 0;
    while j < cmd.params.len()
        invariant
            j <= cmd.params.len(),
            ps == cli_params_view(cmd.params@),
            repl@ == url_replacements(ps.take(j as int)),
        decreases cmd.params.len() - j,
    {
        proof {
            assert(ps.take(j + 1).drop_last() =~= ps.take(j as int));
        }
        let p = &cmd.params[j];
        if p.location == ParamLocation::Path {
            let arg = replace_char_str(p.name.as_str(), '-', "_");
            push_str(&mut repl, ".replace(\"${");
            push_str(&mut repl, arg.as_str());
            push_str(&mut repl, "}\", &args.");
            push_str(&mut repl, arg.as_str());
            push_str(&mut repl, ")");
        }
        proof {
            assert(repl@ =~= url_replacements(ps.take(j + 1)));
        }
        j = j + 1;
    }
    proof {
        assert(ps.take(ps.len() as int) =~= ps);
    }
    let base = match base_url {
        Some(b) => b,
        None => "https://api.example.com",
    };
    let base_trimmed = trim_end_matches(base, '/');
    let path_trimmed = trim_start_matches(url_path_s.as_str(), '/');
    let mut template = base_trimmed;
    push_str(&mut template, "/");
    push_str(&mut template, path_trimmed.as_str());
    let repl_chars = chars_of(repl.as_str());
    let mut r = String::new();
    if repl_chars.len() > 0 {
        push_str(&mut r, "let mut url = \"");
        push_str(&mut r, template.as_str());
        push_str(&mut r, "\"");
        push_str(&mut r, repl.as_str());
        push_str(&mut r, ";");
    } else {
        push_str(&mut r, "let url = \"");
        push_str(&mut r, template.as_str());
        push_str(&mut r, "\";");
    }
    proof {
        assert(r@ =~= url_code(cmd@, opt_str(base_url)));
    }
    r
}

/// The start of a command's `match` arm.
fn arm_head_text(cmd: &CliCommand, base_url: Option<&str>) -> (r: String)
    ensures
        r@ == arm_head(cmd@, opt_str(base_url)),
{
    let variant = variant_name(cmd.name.as_str());
    let method_lower = to_lowercase(cmd.method.as_str());
    let url = make_url_code(cmd, base_url);
    let mut code = String::new();
    push_str(&mut code, "        Commands::");
    push_str(&mut code, variant.as_str());
    push_str(&mut code, "(args) => {\n");
    push_str(&mut code, "            ");
    push_str(&mut code, url.as_str());
    push_str(&mut code, "\n");
    push_str(&mut code, "            let mut request = client.");
    push_str(&mut code, method_lower.as_str());
    push_str(&mut code, "(url);\n");
    push_str(&mut code, "            if let Some(t) = &token {\n");
    push_str(&mut code, "                request = request.bearer_auth(t);\n");
    push_str(&mut code, "            }\n");
    proof {
        assert(code@ =~= arm_head(cmd@, opt_str(base_url)));
    }
    code
}

/// Appends the `match` arm of one command.
fn write_arm(code: &mut String, cmd: &CliCommand, base_url: Option<&str>)
    ensures
        final(code)@ == old(code)@ + match_arm(cmd@, opt_str(base_url)),
{
    let ghost start = code@;
    let head = arm_head_text(cmd, base_url);
    push_str(code, head.as_str());
    let ghost ps = cmd@.params;
    let ghost mid = code@;
    let mut i: usize = 0;
    while i < cmd.params.len()
        invariant
            i <= cmd.params.len(),
            ps == cli_params_view(cmd.params@),
            code@ == mid + query_lines(ps.take(i as int)),
        decreases cmd.params.len() - i,
    {
        proof {
            assert(ps.take(i + 1).drop_last() =~= ps.take(i as int));
        }
        let p = &cmd.params[i];
        let ghost before = code@;
        if p.location == ParamLocation::Query {
            let arg = replace_char_str(p.name.as_str(), '-', "_");
            push_str(code, "            if let Some(v) = &args.");
            push_str(code, arg.as_str());
            push_str(code, " {\n");
            push_str(code, "                request = request.query(&[(\"");
            push_str(code, p.name.as_str());
            push_str(code, "\", v)]);\n");
            push_str(code, "            }\n");
        }
        proof {
            assert(code@ =~= mid + query_lines(ps.take(i + 1)));
        }
        i = i + 1;
    }
    let ghost mid2 = code@;
    if cmd.has_body {
        push_str(code, "            if let Some(b) = &args.body {\n");
        push_str(code, "                request = request.body(b.clone());\n");
        push_str(
            code,
            "                request = request.header(\"Content-Type\", \"application/json\");\n",
        );
        push_str(code, "            }\n");
    }
    proof {
        assert(code@ =~= mid2 + body_lines(cmd.has_body));
    }
    let ghost mid3 = code@;
    push_str(code, "            let response = request.send()?;\n");
    push_str(code, "            println!(\"{}\", response.text()?);\n");
    push_str(code, "            Ok(())\n");
    push_str(code, "        }\n");
    proof {
        assert(code@ =~= mid3 + arm_tail());
        assert(ps.take(ps.len() as int) =~= ps);
        assert(code@ =~= start + match_arm(cmd@, opt_str(base_url)));
    }
}

/// The start of the generated code.
fn app_header_text(name: &str) -> (r: String)
    ensures
        r@ == app_header(name@),
{
    let mut code = String::new();
    push_str(&mut code, "//! ");
    push_str(&mut code, name);
    push_str(&mut code, " - Auto-generated CLI from OpenAPI spec\n\n");
    push_str(&mut code, "use anyhow::Result;\n");
    push_str(&mut code, "use clap::{Parser, Subcommand};\n");
    push_str(&mut code, "use reqwest::blocking::Client;\n\n");
    push_str(&mut code, "#[derive(Parser, Debug)]\n");
    push_str(&mut code, "#[command(name = \"cli\")]\n");
    push_str(&mut code, "#[command(about = \"Auto-generated CLI from OpenAPI\")]\n");
    push_str(&mut code, "struct Args {\n");
    push_str(&mut code, "    #[command(subcommand)]\n");
    push_str(&mut code, "    command: Commands,\n");
    push_str(&mut code, "}\n\n");
    push_str(&mut code, "#[derive(Subcommand, Debug)]\n");
    push_str(&mut code, "enum Commands {\n");
    proof {
        assert(code@ =~= app_header(name@));
    }
    code
}

/// The start of `main`.
fn main_header_text(base_url: Option<&str>, token: Option<&str>) -> (r: String)
    ensures
        r@ == main_header(opt_str(base_url), opt_str(token)),
{
    let mut code = String::new();
    push_str(&mut code, "fn main() -> Result<()> {\n");
    push_str(&mut code, "    let args = Args::parse();\n");
    push_str(&mut code, "    let client = Client::new();\n");
    push_str(&mut code, "    let base_url = \"");
    match base_url {
        Some(b) => push_str(&mut code, b),
        None => push_str(&mut code, "https://api.example.com"),
    }
    push_str(&mut code, "\";\n\n");
    let ghost mid = code@;
    match token {
        Some(t) => {
            push_str(&mut code, "    let token = Some(\"");
            push_str(&mut code, t);
            push_str(&mut code, "\");\n");
        },
        None => {
            push_str(&mut code, "    let token = std::env::var(\"API_TOKEN\").ok();\n");
        },
    }
    proof {
        assert(code@ =~= mid + token_line(opt_str(token)));
    }
    push_str(&mut code, "    match args.command {\n");
    proof {
        assert(code@ =~= main_header(opt_str(base_url), opt_str(token)));
    }
    code
}

impl CliGenerator {
    /// Generate complete CLI application code
    pub fn generate_cli_app(&self, name: &str, base_url: Option<&str>, token: Option<&str>) -> (r:
        String)
        ensures
            r@ == cli_app_code(self@, name@, opt_str(base_url), opt_str(token)),
    {
        let ghost cs = self@;
        let mut code = app_header_text(name);
        let ghost h = code@;
        let mut i: usize = 0;
        while i < self.commands.len()
            invariant
                i <= self.commands.len(),
                cs == commands_view(self.commands@),
                code@ == h + enum_entries(cs.take(i as int)),
            decreases self.commands.len() - i,
        {
            proof {
                assert(cs.take(i + 1).drop_last() =~= cs.take(i as int));
            }
            let cmd = &self.commands[i];
            let variant = variant_name(cmd.name.as_str());
            push_str(&mut code, "    /// ");
            push_str(&mut code, cmd.description.as_str());
            push_str(&mut code, "\n");
            push_str(&mut code, "    ");
            push_str(&mut code, variant.as_str());
            push_str(&mut code, "(");
            push_str(&mut code, variant.as_str());
            push_str(&mut code, "),\n");
            proof {
                assert(code@ =~= h + enum_entries(cs.take(i + 1)));
            }
            i = i + 1;
        }
        push_str(&mut code, "}\n\n");
        let ghost h2 = code@;
        let mut j: usize = 0;
        while j < self.commands.len()
            invariant
                j <= self.commands.len(),
                cs == commands_view(self.commands@),
                code@ == h2 + struct_blocks(cs.take(j as int)),
            decreases self.commands.len() - j,
        {
            proof {
                assert(cs.take(j + 1).drop_last() =~= cs.take(j as int));
            }
            write_struct(&mut code, &self.commands[j]);
            proof {
                assert(code@ =~= h2 + struct_blocks(cs.take(j + 1)));
            }
            j = j + 1;
        }
        let ghost h3 = code@;
        let mh = main_header_text(base_url, token);
        push_str(&mut code, mh.as_str());
        let ghost h4 = code@;
        let mut k: usize = 0;
        while k < self.commands.len()
            invariant
                k <= self.commands.len(),
                cs == commands_view(self.commands@),
                code@ == h4 + match_arms(cs.take(k as int), opt_str(base_url)),
            decreases self.commands.len() - k,
        {
            proof {
                assert(cs.take(k + 1).drop_last() =~= cs.take(k as int));
            }
            write_arm(&mut code, &self.commands[k], base_url);
            proof {
                assert(code@ =~= h4 + match_arms(cs.take(k + 1), opt_str(base_url)));
            }
            k = k + 1;
        }
        push_str(&mut code, "    }\n");
        push_str(&mut code, "}\n");
        proof {
            assert(cs.take(cs.len() as int) =~= cs);
            assert(code@ =~= cli_app_code(cs, name@, opt_str(base_url), opt_str(token)));
        }
        code
    }
}


// ── Project scaffolding ───────────────────────────────────────────────────────

/// Scaffolds a Cargo project whose binary runs an OpenAPI spec as a CLI
/// through this library: `Cargo.toml`, `src/main.rs` and `.gitignore`,
/// in the directory `app_name` under `output_dir`.
#[derive(Debug, Clone)]
pub struct ProjectGenerator {
    /// Name of the generated package and binary.
    pub app_name: String,
    /// The spec URL or path that the binary loads.
    pub spec_source: String,
    /// Directory in which the project directory is created.
    pub output_dir: String,
}

/// The manifest of a generated project.
pub open spec fn cargo_toml_text(app_name: Seq<char>) -> Seq<char> {
    "[package]\n"@ + "name = \""@ + app_name + "\"\n"@ + "version = \"0.1.0\"\n"@
        + "edition = \"2021\"\n\n"@ + "[dependencies]\n"@
        + "api2cli = { git = \"https://github.com/Binlogo/api2cli\" }\n"@ + "anyhow = \"1.0\"\n"@
}

/// The `main.rs` of a generated project: it loads the spec and runs it.
pub open spec fn main_rs_text(app_name: Seq<char>, spec_source: Seq<char>) -> Seq<char> {
    "use api2cli::{DynamicCli, DynamicCliConfig, OutputFormat};\n\n"@
        + "fn main() -> anyhow::Result<()> {\n"@ + "    DynamicCli::new(DynamicCliConfig {\n"@
        + "        spec_source: \""@ + spec_source + "\".to_string(),\n"@
        + "        app_name: \""@ + app_name + "\".to_string(),\n"@
        + "        base_url_override: None,\n"@ + "        auth_token: None,\n"@
        + "        output_format: OutputFormat::Pretty,\n"@ + "    })?\n"@ + "    .run()?;\n"@
        + "    Ok(())\n"@ + "}\n"@
}

/// The `.gitignore` of a generated project.
pub open spec fn gitignore_text() -> Seq<char> {
    "/target\n"@
}

impl ProjectGenerator {
    /// The text of the generated `Cargo.toml`.
    pub fn cargo_toml(&self) -> (r: String)
        ensures
            r@ == cargo_toml_text(self.app_name@),
    {
        let mut r = String::new();
        push_str(&mut r, "[package]\n");
        push_str(&mut r, "name = \"");
        push_str(&mut r, self.app_name.as_str());
        push_str(&mut r, "\"\n");
        push_str(&mut r, "version = \"0.1.0\"\n");
        push_str(&mut r, "edition = \"2021\"\n\n");
        push_str(&mut r, "[dependencies]\n");
        push_str(&mut r, "api2cli = { git = \"https://github.com/Binlogo/api2cli\" }\n");
        push_str(&mut r, "anyhow = \"1.0\"\n");
        proof {
            assert(r@ =~= cargo_toml_text(self.app_name@));
        }
        r
    }

    /// The text of the generated `src/main.rs`.
    pub fn main_rs(&self) -> (r: String)
        ensures
            r@ == main_rs_text(self.app_name@, self.spec_source@),
    {
        let mut r = String::new();
        push_str(&mut r, "use api2cli::{DynamicCli, DynamicCliConfig, OutputFormat};\n\n");
        push_str(&mut r, "fn main() -> anyhow::Result<()> {\n");
        push_str(&mut r, "    DynamicCli::new(DynamicCliConfig {\n");
        push_str(&mut r, "        spec_source: \"");
        push_str(&mut r, self.spec_source.as_str());
        push_str(&mut r, "\".to_string(),\n");
        push_str(&mut r, "        app_name: \"");
        push_str(&mut r, self.app_name.as_str());
        push_str(&mut r, "\".to_string(),\n");
        push_str(&mut r, "        base_url_override: None,\n");
        push_str(&mut r, "        auth_token: None,\n");
        push_str(&mut r, "        output_format: OutputFormat::Pretty,\n");
        push_str(&mut r, "    })?\n");
        push_str(&mut r, "    .run()?;\n");
        push_str(&mut r, "    Ok(())\n");
        push_str(&mut r, "}\n");
        proof {
            assert(r@ =~= main_rs_text(self.app_name@, self.spec_source@));
        }
        r
    }

    /// The text of the generated `.gitignore`.
    pub fn gitignore(&self) -> (r: String)
        ensures
            r@ == gitignore_text(),
    {
        copy_str("/target\n")
    }
}

} // verus!
