//! Dynamic CLI runtime: the decisions that turn an [`ApiSpec`] into a command
//! tree, pick the operation that an invocation names, build its HTTP request
//! and render the response.
//!
//! Operations are grouped by their first OpenAPI tag:
//!
//! ```text
//! pets pet get-pet-by-id --pet-id 1234
//! pets store get-inventory
//! ```
//!
//! If the spec has only one tag (or no tags at all), the tag level is omitted
//! and operations appear as top-level subcommands.

use vstd::prelude::*;

use indexmap::IndexMap;

use crate::json::{json_reading, read_json, to_serde, JsonValue};

use crate::spec::{
    method_name, opt_text, or_text, texts, ApiSpec, ApiSpecView, Operation, OperationView,
    Parameter, ParameterView, RequestBodyView,
};
use crate::text::{
    chars_of, copy_str, push_str, replace_all, replace_str, str_eq, str_lower,
    string_of, to_lowercase, trim_end, trim_end_matches, trim_start, trim_start_matches,
};

verus! {

// ── Configuration ─────────────────────────────────────────────────────────────

/// Output format for API responses.
#[derive(Debug, Clone, Copy, PartialEq, Eq, Structural)]
pub enum OutputFormat {
    /// Pretty-print JSON (default).
    Pretty,
    /// Print the raw response body without any formatting.
    Raw,
}

impl Default for OutputFormat {
    fn default() -> (r: OutputFormat)
        ensures
            r == OutputFormat::Pretty,
    {
        OutputFormat::Pretty
    }
}

/// Configuration of a [`DynamicCli`].
#[derive(Debug, Clone)]
pub struct DynamicCliConfig {
    /// URL or file path of the OpenAPI spec.
    pub spec_source: String,
    /// Name used as the root command name (typically the binary name).
    pub app_name: String,
    /// Override the base URL from the spec's `servers` list.
    pub base_url_override: Option<String>,
    /// Bearer token used for `Authorization: Bearer <token>` header.
    pub auth_token: Option<String>,
    /// Default output format; can be overridden with `--output` at runtime.
    pub output_format: OutputFormat,
}

pub struct DynamicCliConfigView {
    pub spec_source: Seq<char>,
    pub app_name: Seq<char>,
    pub base_url_override: Option<Seq<char>>,
    pub auth_token: Option<Seq<char>>,
    pub output_format: OutputFormat,
}

impl View for DynamicCliConfig {
    type V = DynamicCliConfigView;

    open spec fn view(&self) -> DynamicCliConfigView {
        DynamicCliConfigView {
            spec_source: self.spec_source@,
            app_name: self.app_name@,
            base_url_override: opt_text(self.base_url_override),
            auth_token: opt_text(self.auth_token),
            output_format: self.output_format,
        }
    }
}

// ── The command tree ──────────────────────────────────────────────────────────

/// One command-line argument.
#[derive(Debug, Clone)]
pub struct ArgSpec {
    /// The identifier its value is read back by.
    pub id: String,
    /// The long flag (`--long`).
    pub long: String,
    /// The short flag, if any.
    pub short: Option<char>,
    pub help: String,
    pub required: bool,
    /// Whether the argument is accepted on every subcommand.
    pub global: bool,
    /// The environment variable that supplies the value when the flag is absent.
    pub env: Option<String>,
    /// The only values accepted, if restricted.
    pub possible_values: Option<Vec<String>>,
    /// The value taken when the flag is absent.
    pub default_value: Option<String>,
}

/// The subcommand of one operation.
#[derive(Debug, Clone)]
pub struct OpCommand {
    pub name: String,
    pub about: String,
    pub args: Vec<ArgSpec>,
}

/// The subcommand of one tag, holding its operations' subcommands.
#[derive(Debug, Clone)]
pub struct TagCommand {
    pub name: String,
    pub about: String,
    pub commands: Vec<OpCommand>,
}

/// The whole command tree. The root and each tag group require a
/// subcommand and show help when called bare. Exactly one of `groups` and
/// `commands` is used: tag groups, or operations directly under the root.
#[derive(Debug, Clone)]
pub struct CommandTree {
    pub name: String,
    pub about: String,
    pub version: String,
    pub groups: Vec<TagCommand>,
    pub commands: Vec<OpCommand>,
    pub global_args: Vec<ArgSpec>,
}

pub struct ArgSpecView {
    pub id: Seq<char>,
    pub long: Seq<char>,
    pub short: Option<char>,
    pub help: Seq<char>,
    pub required: bool,
    pub global: bool,
    pub env: Option<Seq<char>>,
    pub possible_values: Option<Seq<Seq<char>>>,
    pub default_value: Option<Seq<char>>,
}

pub struct OpCommandView {
    pub name: Seq<char>,
    pub about: Seq<char>,
    pub args: Seq<ArgSpecView>,
}

pub struct TagCommandView {
    pub name: Seq<char>,
    pub about: Seq<char>,
    pub commands: Seq<OpCommandView>,
}

pub struct CommandTreeView {
    pub name: Seq<char>,
    pub about: Seq<char>,
    pub version: Seq<char>,
    pub groups: Seq<TagCommandView>,
    pub commands: Seq<OpCommandView>,
    pub global_args: Seq<ArgSpecView>,
}

impl View for ArgSpec {
    type V = ArgSpecView;

    open spec fn view(&self) -> ArgSpecView {
        ArgSpecView {
            id: self.id@,
            long: self.long@,
            short: self.short,
            help: self.help@,
            required: self.required,
            global: self.global,
            env: opt_text(self.env),
            possible_values: match self.possible_values {
                Some(v) => Some(texts(v@)),
                None => None,
            },
            default_value: opt_text(self.default_value),
        }
    }
}

/// The views of a sequence of arguments.
pub open spec fn args_view(v: Seq<ArgSpec>) -> Seq<ArgSpecView> {
    v.map_values(|a: ArgSpec| a@)
}

impl View for OpCommand {
    type V = OpCommandView;

    open spec fn view(&self) -> OpCommandView {
        OpCommandView { name: self.name@, about: self.about@, args: args_view(self.args@) }
    }
}

/// The views of a sequence of operation subcommands.
pub open spec fn op_commands_view(v: Seq<OpCommand>) -> Seq<OpCommandView> {
    v.map_values(|c: OpCommand| c@)
}

impl View for TagCommand {
    type V = TagCommandView;

    open spec fn view(&self) -> TagCommandView {
        TagCommandView {
            name: self.name@,
            about: self.about@,
            commands: op_commands_view(self.commands@),
        }
    }
}

impl View for CommandTree {
    type V = CommandTreeView;

    open spec fn view(&self) -> CommandTreeView {
        CommandTreeView {
            name: self.name@,
            about: self.about@,
            version: self.version@,
            groups: self.groups@.map_values(|g: TagCommand| g@),
            commands: op_commands_view(self.commands@),
            global_args: args_view(self.global_args@),
        }
    }
}

// ── Grouping by tag ───────────────────────────────────────────────────────────

/// `indexmap::IndexMap`, the insertion-ordered map that groups operations by tag.
#[verifier::external_type_specification]
#[verifier::external_body]
#[verifier::reject_recursive_types(K)]
#[verifier::reject_recursive_types(V)]
#[verifier::reject_recursive_types(S)]
pub struct ExIndexMap<K, V, S>(IndexMap<K, V, S>);

/// The entries of a tag map, in insertion order: each tag with the indices
/// of its operations.
pub uninterp spec fn tag_entries(m: IndexMap<String, Vec<usize>>) -> Seq<(Seq<char>, Seq<usize>)>;

/// The position of the entry keyed `t`, or -1.
pub open spec fn key_position(gs: Seq<(Seq<char>, Seq<usize>)>, t: Seq<char>) -> int
    decreases gs.len(),
{
    if gs.len() == 0 {
        -1
    } else {
        let k = key_position(gs.drop_last(), t);
        if k >= 0 {
            k
        } else if gs.last().0 == t {
            gs.len() - 1
        } else {
            -1
        }
    }
}

/// `i` appended to the entry keyed `t`, which is created at the end if absent.
pub open spec fn group_add(gs: Seq<(Seq<char>, Seq<usize>)>, t: Seq<char>, i: usize) -> Seq<
    (Seq<char>, Seq<usize>),
> {
    let k = key_position(gs, t);
    if k >= 0 {
        gs.update(k, (gs[k].0, gs[k].1.push(i)))
    } else {
        gs.push((t, seq![i]))
    }
}

/// `IndexMap::new`: an empty map.
#[verifier::external_body]
fn tag_map_new() -> (m: IndexMap<String, Vec<usize>>)
    ensures
        tag_entries(m) == Seq::<(Seq<char>, Seq<usize>)>::empty(),
{
    IndexMap::new()
}

/// `IndexMap::entry(tag).or_default().push(i)`: appends `i` to the entry
/// keyed `tag` (keys compare as strings), creating it, empty, at the end
/// when there is none.
#[verifier::external_body]
fn tag_map_add(m: &mut IndexMap<String, Vec<usize>>, tag: String, i: usize)
    ensures
        tag_entries(*final(m)) == group_add(tag_entries(*old(m)), tag@, i),
{
    m.entry(tag).or_default().push(i);
}

/// `IndexMap::len`: the number of entries.
#[verifier::external_body]
fn tag_map_len(m: &IndexMap<String, Vec<usize>>) -> (r: usize)
    ensures
        r == tag_entries(*m).len(),
{
    m.len()
}

/// `IndexMap::get_index`: the entry at position `i`, if there is one.
#[verifier::external_body]
fn tag_map_get_index(m: &IndexMap<String, Vec<usize>>, i: usize)
    -> (r: Option<(&String, &Vec<usize>)>)
    ensures
        r is Some == (i < tag_entries(*m).len()),
        r matches Some(e) ==> e.0@ == tag_entries(*m)[i as int].0 && e.1@ == tag_entries(*m)[i as int].1,
{
    m.get_index(i)
}

/// The tag that groups an operation: its first tag, or `default`.
pub open spec fn first_tag(op: OperationView) -> Seq<char> {
    if op.tags.len() > 0 {
        op.tags[0]
    } else {
        "default"@
    }
}

/// The operations (by index) grouped by their first tag, the tags in order
/// of first appearance.
pub open spec fn tag_groups(ops: Seq<OperationView>) -> Seq<(Seq<char>, Seq<usize>)>
    decreases ops.len(),
{
    if ops.len() == 0 {
        Seq::<(Seq<char>, Seq<usize>)>::empty()
    } else {
        group_add(tag_groups(ops.drop_last()), first_tag(ops.last()), (ops.len() - 1) as usize)
    }
}

/// Whether the tag level is used: when the operations fall into more than
/// one group. With a single tag, or none at all, the operations stand
/// directly under the root.
pub open spec fn uses_tag_groups(gs: Seq<(Seq<char>, Seq<usize>)>) -> bool {
    gs.len() > 1
}

/// Every index in every group is below `n`.
pub open spec fn indices_below(gs: Seq<(Seq<char>, Seq<usize>)>, n: int) -> bool {
    forall|g: int, j: int| 0 <= g < gs.len() && 0 <= j < gs[g].1.len() ==> #[trigger] gs[g].1[j] < n
}

proof fn lemma_key_position(gs: Seq<(Seq<char>, Seq<usize>)>, t: Seq<char>)
    ensures
        -1 <= key_position(gs, t) < gs.len(),
        key_position(gs, t) >= 0 ==> gs[key_position(gs, t)].0 == t,
    decreases gs.len(),
{
    if gs.len() > 0 {
        lemma_key_position(gs.drop_last(), t);
    }
}

proof fn lemma_groups_below(ops: Seq<OperationView>)
    ensures
        indices_below(tag_groups(ops), ops.len() as int),
    decreases ops.len(),
{
    if ops.len() > 0 {
        let prev = tag_groups(ops.drop_last());
        lemma_groups_below(ops.drop_last());
        lemma_key_position(prev, first_tag(ops.last()));
        let gs = tag_groups(ops);
        assert forall|g: int, j: int| 0 <= g < gs.len() && 0 <= j < gs[g].1.len() implies #[trigger] gs[g].1[j]
            < ops.len() by {
            let k = key_position(prev, first_tag(ops.last()));
            if g < prev.len() && !(k == g && j == prev[g].1.len()) {
                assert(gs[g].1[j] == prev[g].1[j]);
            }
        }
    }
}

// ── Building the tree ─────────────────────────────────────────────────────────

/// The argument of one parameter.
pub open spec fn param_arg(p: ParameterView) -> ArgSpecView {
    ArgSpecView {
        id: p.cli_name,
        long: p.cli_name,
        short: None,
        help: or_text(p.description, p.name),
        required: p.required,
        global: false,
        env: None,
        possible_values: p.schema.enum_values,
        default_value: p.schema.default,
    }
}

/// The `--body` argument of an operation that takes a request body.
pub open spec fn body_arg(rb: RequestBodyView) -> ArgSpecView {
    ArgSpecView {
        id: "body"@,
        long: "body"@,
        short: Some('d'),
        help: or_text(rb.description, "Request body as a JSON string or @path/to/file"@),
        required: rb.required,
        global: false,
        env: None,
        possible_values: None,
        default_value: None,
    }
}

/// The arguments of an operation: one per parameter, then `--body`.
pub open spec fn op_args(op: OperationView) -> Seq<ArgSpecView> {
    op.parameters.map_values(|p: ParameterView| param_arg(p)) + match op.request_body {
        Some(rb) => seq![body_arg(rb)],
        None => Seq::<ArgSpecView>::empty(),
    }
}

/// The subcommand of an operation: its kebab-case name, about text
/// `[METHOD] summary`, and its arguments.
pub open spec fn op_command(op: OperationView) -> OpCommandView {
    OpCommandView {
        name: op.command_name,
        about: "["@ + method_name(op.method) + "] "@ + or_text(
            op.summary,
            or_text(op.description, Seq::<char>::empty()),
        ),
        args: op_args(op),
    }
}

/// The subcommand of a tag group.
pub open spec fn tag_command(
    t: Seq<char>,
    idxs: Seq<usize>,
    ops: Seq<OperationView>,
) -> TagCommandView {
    TagCommandView {
        name: str_lower(t),
        about: "Operations tagged '"@ + t + "'"@,
        commands: idxs.map_values(|i: usize| op_command(ops[i as int])),
    }
}

/// The arguments accepted on every subcommand: `--token`/`-t` (also from
/// `API_TOKEN`), `--base-url`, and `--output`/`-o` (`pretty` or `raw`; when
/// absent, the configured output format applies).
pub open spec fn global_args() -> Seq<ArgSpecView> {
    seq![
        ArgSpecView {
            id: "token"@,
            long: "token"@,
            short: Some('t'),
            help: "Bearer token for authentication"@,
            required: false,
            global: true,
            env: Some("API_TOKEN"@),
            possible_values: None,
            default_value: None,
        },
        ArgSpecView {
            id: "base-url"@,
            long: "base-url"@,
            short: None,
            help: "Override the base URL from the spec"@,
            required: false,
            global: true,
            env: None,
            possible_values: None,
            default_value: None,
        },
        ArgSpecView {
            id: "output"@,
            long: "output"@,
            short: Some('o'),
            help: "Response output format"@,
            required: false,
            global: true,
            env: None,
            possible_values: Some(seq!["pretty"@, "raw"@]),
            default_value: None,
        },
    ]
}

/// The command tree of a spec under the configured app name.
pub open spec fn command_tree(config: DynamicCliConfigView, spec: ApiSpecView) -> CommandTreeView {
    let gs = tag_groups(spec.operations);
    let grouped = uses_tag_groups(gs);
    CommandTreeView {
        name: config.app_name,
        about: or_text(spec.info.description, spec.info.title),
        version: spec.info.version,
        groups: if grouped {
            gs.map_values(
                |g: (Seq<char>, Seq<usize>)| tag_command(g.0, g.1, spec.operations),
            )
        } else {
            Seq::<TagCommandView>::empty()
        },
        commands: if grouped {
            Seq::<OpCommandView>::empty()
        } else {
            spec.operations.map_values(|o: OperationView| op_command(o))
        },
        global_args: global_args(),
    }
}

/// Loads an OpenAPI spec's operations into a command tree and plans the
/// requests that invocations of it make.
pub struct DynamicCli {
    config: DynamicCliConfig,
    spec: ApiSpec,
}

impl DynamicCli {
    /// The configuration.
    pub closed spec fn config_view(&self) -> DynamicCliConfigView {
        self.config@
    }

    /// The spec.
    pub closed spec fn spec_view(&self) -> ApiSpecView {
        self.spec@
    }

    /// A runtime for a spec that is already loaded.
    pub fn from_spec(config: DynamicCliConfig, spec: ApiSpec) -> (r: Self)
        ensures
            r.config_view() == config@,
            r.spec_view() == spec@,
    {
        DynamicCli { config, spec }
    }

    /// The configuration.
    pub fn config(&self) -> (r: &DynamicCliConfig)
        ensures
            r@ == self.config_view(),
    {
        &self.config
    }

    /// The spec.
    pub fn spec(&self) -> (r: &ApiSpec)
        ensures
            r@ == self.spec_view(),
    {
        &self.spec
    }

    /// The argument of one parameter.
    pub fn build_arg(param: &Parameter) -> (r: ArgSpec)
        ensures
            r@ == param_arg(param@),
    {
        let help = match &param.description {
            Some(d) => copy_str(d.as_str()),
            None => copy_str(param.name.as_str()),
        };
        let possible_values = match &param.schema.enum_values {
            Some(values) => Some(copy_strings(values)),
            None => None,
        };
        let default_value = match &param.schema.default {
            Some(d) => Some(copy_str(d.as_str())),
            None => None,
        };
        ArgSpec {
            id: copy_str(param.cli_name.as_str()),
            long: copy_str(param.cli_name.as_str()),
            short: None,
            help,
            required: param.required,
            global: false,
            env: None,
            possible_values,
            default_value,
        }
    }

    /// The subcommand of an operation.
    pub fn build_op_command(op: &Operation) -> (r: OpCommand)
        ensures
            r@ == op_command(op@),
    {
        let mut about = copy_str("[");
        push_str(&mut about, op.method.as_str());
        push_str(&mut about, "] ");
        match &op.summary {
            Some(s) => push_str(&mut about, s.as_str()),
            None => match &op.description {
                Some(d) => push_str(&mut about, d.as_str()),
                None => {},
            },
        }
        let ghost pv = op@.parameters;
        let mut args: Vec<ArgSpec> = Vec::new();
        let mut i: usize = 0;
        while i < op.parameters.len()
            invariant
                i <= op.parameters.len(),
                pv == op@.parameters,
                pv == op.parameters@.map_values(|p: Parameter| p@),
                args_view(args@) == pv.take(i as int).map_values(|p: ParameterView| param_arg(p)),
            decreases op.parameters.len() - i,
        {
            let a = Self::build_arg(&op.parameters[i]);
            let ghost before = args@;
            args.push(a);
            proof {
                assert(pv[i as int] == op.parameters@[i as int]@);
                assert(pv.take(i + 1) =~= pv.take(i as int).push(pv[i as int]));
                assert(args_view(args@) =~= args_view(before).push(a@));
                assert(args_view(args@) =~= pv.take(i + 1).map_values(
                    |p: ParameterView| param_arg(p),
                ));
            }
            i = i + 1;
        }
        proof {
            assert(pv.take(pv.len() as int) =~= pv);
        }
        let ghost before = args@;
        match &op.request_body {
            Some(rb) => {
                let help = match &rb.description {
                    Some(d) => copy_str(d.as_str()),
                    None => copy_str("Request body as a JSON string or @path/to/file"),
                };
                args.push(
                    ArgSpec {
                        id: copy_str("body"),
                        long: copy_str("body"),
                        short: Some('d'),
                        help,
                        required: rb.required,
                        global: false,
                        env: None,
                        possible_values: None,
                        default_value: None,
                    },
                );
            },
            None => {},
        }
        proof {
            assert(args_view(args@) =~= op_args(op@));
            reveal_strlit("");
        }
        let r = OpCommand { name: copy_str(op.command_name.as_str()), about, args };
        proof {
            assert(r@.about =~= op_command(op@).about);
        }
        r
    }
}

/// A copy of a list of strings.
fn copy_strings(v: &Vec<String>) -> (r: Vec<String>)
    ensures
        texts(r@) == texts(v@),
{
    let mut r: Vec<String> = Vec::new();
    let mut i: usize = 0;
    while i < v.len()
        invariant
            i <= v.len(),
            texts(r@) == texts(v@.take(i as int)),
        decreases v.len() - i,
    {
        let ghost before = r@;
        r.push(copy_str(v[i].as_str()));
        proof {
            assert(v@.take(i + 1) =~= v@.take(i as int).push(v@[i as int]));
            assert(texts(r@) =~= texts(before).push(v@[i as int]@));
            assert(texts(r@) =~= texts(v@.take(i + 1)));
        }
        i = i + 1;
    }
    proof {
        assert(v@.take(v@.len() as int) =~= v@);
    }
    r
}


/// The global arguments.
fn global_arg_specs() -> (r: Vec<ArgSpec>)
    ensures
        args_view(r@) == global_args(),
{
    let mut output_values: Vec<String> = Vec::new();
    output_values.push(copy_str("pretty"));
    output_values.push(copy_str("raw"));
    let mut r: Vec<ArgSpec> = Vec::new();
    r.push(
        ArgSpec {
            id: copy_str("token"),
            long: copy_str("token"),
            short: Some('t'),
            help: copy_str("Bearer token for authentication"),
            required: false,
            global: true,
            env: Some(copy_str("API_TOKEN")),
            possible_values: None,
            default_value: None,
        },
    );
    r.push(
        ArgSpec {
            id: copy_str("base-url"),
            long: copy_str("base-url"),
            short: None,
            help: copy_str("Override the base URL from the spec"),
            required: false,
            global: true,
            env: None,
            possible_values: None,
            default_value: None,
        },
    );
    r.push(
        ArgSpec {
            id: copy_str("output"),
            long: copy_str("output"),
            short: Some('o'),
            help: copy_str("Response output format"),
            required: false,
            global: true,
            env: None,
            possible_values: Some(output_values),
            default_value: None,
        },
    );
    proof {
        assert(texts(output_values@) =~= seq!["pretty"@, "raw"@]);
        assert(args_view(r@) =~= global_args());
    }
    r
}

impl DynamicCli {
    /// The subcommand of a tag group.
    fn build_tag_command(&self, tag: &String, idxs: &Vec<usize>) -> (r: TagCommand)
        requires
            forall|j: int| 0 <= j < idxs@.len() ==> #[trigger] idxs@[j] < self.spec.operations@.len(),
        ensures
            r@ == tag_command(tag@, idxs@, self.spec_view().operations),
    {
        let ghost ops = self.spec_view().operations;
        let name = to_lowercase(tag.as_str());
        let mut about = copy_str("Operations tagged '");
        push_str(&mut about, tag.as_str());
        push_str(&mut about, "'");
        let mut commands: Vec<OpCommand> = Vec::new();
        let mut j: usize = 0;
        while j < idxs.len()
            invariant
                j <= idxs.len(),
                ops == self.spec@.operations,
                ops == self.spec.operations@.map_values(|o: Operation| o@),
                forall|k: int| 0 <= k < idxs@.len() ==> #[trigger] idxs@[k] < self.spec.operations@.len(),
                op_commands_view(commands@) == idxs@.take(j as int).map_values(
                    |i: usize| op_command(ops[i as int]),
                ),
            decreases idxs.len() - j,
        {
            let idx = idxs[j];
            let c = Self::build_op_command(&self.spec.operations[idx]);
            let ghost before = commands@;
            commands.push(c);
            proof {
                assert(ops[idx as int] == self.spec.operations@[idx as int]@);
                assert(idxs@.take(j + 1) =~= idxs@.take(j as int).push(idx));
                assert(op_commands_view(commands@) =~= op_commands_view(before).push(c@));
                assert(op_commands_view(commands@) =~= idxs@.take(j + 1).map_values(
                    |i: usize| op_command(ops[i as int]),
                ));
            }
            j = j + 1;
        }
        proof {
            assert(idxs@.take(idxs@.len() as int) =~= idxs@);
        }
        TagCommand { name, about, commands }
    }

    /// The command tree of the spec.
    pub fn build_command(&self) -> (r: CommandTree)
        ensures
            r@ == command_tree(self.config_view(), self.spec_view()),
    {
        let ghost ops = self.spec_view().operations;
        let about = match &self.spec.info.description {
            Some(d) => copy_str(d.as_str()),
            None => copy_str(self.spec.info.title.as_str()),
        };
        let mut tagged = tag_map_new();
        let mut i: usize = 0;
        while i < self.spec.operations.len()
            invariant
                i <= self.spec.operations.len(),
                ops == self.spec@.operations,
                ops == self.spec.operations@.map_values(|o: Operation| o@),
                tag_entries(tagged) == tag_groups(ops.take(i as int)),
            decreases self.spec.operations.len() - i,
        {
            let op = &self.spec.operations[i];
            let tag = if op.tags.len() > 0 {
                copy_str(op.tags[0].as_str())
            } else {
                copy_str("default")
            };
            proof {
                assert(ops[i as int] == op@);
                assert(ops.take(i + 1).drop_last() =~= ops.take(i as int));
                if op.tags.len() > 0 {
                    assert(op@.tags[0] == op.tags@[0]@);
                }
            }
            tag_map_add(&mut tagged, tag, i);
            i = i + 1;
        }
        proof {
            assert(ops.take(ops.len() as int) =~= ops);
            lemma_groups_below(ops);
        }
        let ghost gs = tag_groups(ops);
        let n = tag_map_len(&tagged);
        let use_tag_groups = n > 1;
        let mut groups: Vec<TagCommand> = Vec::new();
        let mut commands: Vec<OpCommand> = Vec::new();
        if use_tag_groups {
            let mut g: usize = 0;
            while g < n
                invariant
                    g <= n,
                    n == gs.len(),
                    gs == tag_entries(tagged),
                    ops == self.spec@.operations,
                    indices_below(gs, ops.len() as int),
                    ops.len() == self.spec.operations@.len(),
                    groups@.map_values(|t: TagCommand| t@) == gs.take(g as int).map_values(
                        |e: (Seq<char>, Seq<usize>)| tag_command(e.0, e.1, ops),
                    ),
                decreases n - g,
            {
                let e = tag_map_get_index(&tagged, g);
                match e {
                    Some((tag, idxs)) => {
                        proof {
                            assert forall|j: int| 0 <= j < idxs@.len() implies #[trigger] idxs@[j]
                                < self.spec.operations@.len() by {
                                assert(gs[g as int].1[j] < ops.len());
                            }
                        }
                        let t = self.build_tag_command(tag, idxs);
                        let ghost before = groups@;
                        groups.push(t);
                        proof {
                            assert(gs.take(g + 1) =~= gs.take(g as int).push(gs[g as int]));
                            assert(groups@.map_values(|t: TagCommand| t@) =~= before.map_values(
                                |t: TagCommand| t@,
                            ).push(t@));
                            assert(groups@.map_values(|t: TagCommand| t@) =~= gs.take(
                                g + 1,
                            ).map_values(|e: (Seq<char>, Seq<usize>)| tag_command(e.0, e.1, ops)));
                        }
                    },
                    None => {},
                }
                g = g + 1;
            }
            proof {
                assert(gs.take(gs.len() as int) =~= gs);
                assert(op_commands_view(commands@) =~= Seq::<OpCommandView>::empty());
            }
        } else {
            let mut k: usize = 0;
            while k < self.spec.operations.len()
                invariant
                    k <= self.spec.operations.len(),
                    ops == self.spec@.operations,
                    ops == self.spec.operations@.map_values(|o: Operation| o@),
                    op_commands_view(commands@) == ops.take(k as int).map_values(
                        |o: OperationView| op_command(o),
                    ),
                decreases self.spec.operations.len() - k,
            {
                let c = Self::build_op_command(&self.spec.operations[k]);
                let ghost before = commands@;
                commands.push(c);
                proof {
                    assert(ops.take(k + 1) =~= ops.take(k as int).push(ops[k as int]));
                    assert(op_commands_view(commands@) =~= op_commands_view(before).push(c@));
                    assert(op_commands_view(commands@) =~= ops.take(k + 1).map_values(
                        |o: OperationView| op_command(o),
                    ));
                }
                k = k + 1;
            }
            proof {
                assert(ops.take(ops.len() as int) =~= ops);
                assert(groups@.map_values(|t: TagCommand| t@) =~= Seq::<TagCommandView>::empty());
            }
        }
        proof {
            reveal_strlit("default");
        }
        CommandTree {
            name: copy_str(self.config.app_name.as_str()),
            about,
            version: copy_str(self.spec.info.version.as_str()),
            groups,
            commands,
            global_args: global_arg_specs(),
        }
    }
}


// ── Dispatching an invocation ─────────────────────────────────────────────────

/// What the command line named: the subcommands from the root down, the
/// values given (or defaulted) for the invoked subcommand's arguments, by
/// argument id, and the global flags.
#[derive(Debug, Clone)]
pub struct Invocation {
    pub subcommands: Vec<String>,
    pub values: Vec<(String, String)>,
    pub token: Option<String>,
    pub base_url: Option<String>,
    pub output: Option<String>,
}

/// The pairs of a sequence of string pairs, as texts.
pub open spec fn pairs_view(v: Seq<(String, String)>) -> Seq<(Seq<char>, Seq<char>)> {
    v.map_values(|p: (String, String)| (p.0@, p.1@))
}

pub struct InvocationView {
    pub subcommands: Seq<Seq<char>>,
    pub values: Seq<(Seq<char>, Seq<char>)>,
    pub token: Option<Seq<char>>,
    pub base_url: Option<Seq<char>>,
    pub output: Option<Seq<char>>,
}

impl View for Invocation {
    type V = InvocationView;

    open spec fn view(&self) -> InvocationView {
        InvocationView {
            subcommands: texts(self.subcommands@),
            values: pairs_view(self.values@),
            token: opt_text(self.token),
            base_url: opt_text(self.base_url),
            output: opt_text(self.output),
        }
    }
}

/// The operation chosen for an invocation, and how to call it.
#[derive(Debug, Clone)]
pub struct Dispatch {
    /// Index of the operation in the spec.
    pub operation: usize,
    pub base_url: String,
    pub token: Option<String>,
    pub format: OutputFormat,
}

pub struct DispatchView {
    pub operation: usize,
    pub base_url: Seq<char>,
    pub token: Option<Seq<char>>,
    pub format: OutputFormat,
}

impl View for Dispatch {
    type V = DispatchView;

    open spec fn view(&self) -> DispatchView {
        DispatchView {
            operation: self.operation,
            base_url: self.base_url@,
            token: opt_text(self.token),
            format: self.format,
        }
    }
}

/// The token: the one given on the command line, else the configured one.
pub open spec fn chosen_token(inv: InvocationView, config: DynamicCliConfigView) -> Option<Seq<char>> {
    match inv.token {
        Some(t) => Some(t),
        None => config.auth_token,
    }
}

/// The base URL: from the command line, else the configured override, else
/// the spec's first server, else `https://localhost`.
pub open spec fn chosen_base_url(
    inv: InvocationView,
    config: DynamicCliConfigView,
    spec: ApiSpecView,
) -> Seq<char> {
    match inv.base_url {
        Some(b) => b,
        None => match config.base_url_override {
            Some(b) => b,
            None => if spec.servers.len() > 0 {
                spec.servers[0]
            } else {
                "https://localhost"@
            },
        },
    }
}

/// The output format: `raw` from the command line gives raw output, any other
/// value pretty; without a value, the configured one.
pub open spec fn chosen_format(inv: InvocationView, config: DynamicCliConfigView) -> OutputFormat {
    match inv.output {
        Some(o) => if o == "raw"@ {
            OutputFormat::Raw
        } else {
            OutputFormat::Pretty
        },
        None => config.output_format,
    }
}

/// The distinct group keys (first tag, or `default`) of the operations, in
/// order of first appearance.
pub open spec fn group_keys(ops: Seq<OperationView>) -> Seq<Seq<char>>
    decreases ops.len(),
{
    if ops.len() == 0 {
        Seq::<Seq<char>>::empty()
    } else {
        let rest = group_keys(ops.drop_last());
        let t = first_tag(ops.last());
        if rest.contains(t) {
            rest
        } else {
            rest.push(t)
        }
    }
}

/// Whether an invocation goes through tag groups: when the operations fall
/// into more than one group.
pub open spec fn dispatch_grouped(ops: Seq<OperationView>) -> bool {
    group_keys(ops).len() > 1
}

/// The group subcommand name of an operation.
pub open spec fn group_name(op: OperationView) -> Seq<char> {
    if op.tags.len() > 0 {
        str_lower(op.tags[0])
    } else {
        "default"@
    }
}

/// Whether the subcommand path names the operation.
pub open spec fn names_op(op: OperationView, grouped: bool, path: Seq<Seq<char>>) -> bool {
    if grouped {
        path.len() >= 2 && path[0] == group_name(op) && path[1] == op.command_name
    } else {
        path.len() >= 1 && path[0] == op.command_name
    }
}

/// The first operation, from index `i` on, that the path names.
pub open spec fn first_named(ops: Seq<OperationView>, grouped: bool, path: Seq<Seq<char>>, i: int) -> Option<int>
    decreases ops.len() - i,
{
    if i < 0 || i >= ops.len() {
        None
    } else if names_op(ops[i], grouped, path) {
        Some(i)
    } else {
        first_named(ops, grouped, path, i + 1)
    }
}

/// The dispatch of an invocation: the first operation it names, with the
/// chosen base URL, token and format; nothing when it names none.
pub open spec fn dispatched(
    inv: InvocationView,
    config: DynamicCliConfigView,
    spec: ApiSpecView,
) -> Option<DispatchView> {
    match first_named(spec.operations, dispatch_grouped(spec.operations), inv.subcommands, 0) {
        Some(i) => Some(
            DispatchView {
                operation: i as usize,
                base_url: chosen_base_url(inv, config, spec),
                token: chosen_token(inv, config),
                format: chosen_format(inv, config),
            },
        ),
        None => None,
    }
}

proof fn lemma_first_named_range(ops: Seq<OperationView>, grouped: bool, path: Seq<Seq<char>>, i: int)
    ensures
        first_named(ops, grouped, path, i) matches Some(k) ==> i <= k < ops.len(),
    decreases ops.len() - i,
{
    if 0 <= i < ops.len() && !names_op(ops[i], grouped, path) {
        lemma_first_named_range(ops, grouped, path, i + 1);
    }
}

impl DynamicCli {
    /// Whether the subcommand path names the operation.
    fn names(op: &Operation, grouped: bool, path: &Vec<String>) -> (r: bool)
        ensures
            r == names_op(op@, grouped, texts(path@)),
    {
        if grouped {
            if path.len() < 2 {
                return false;
            }
            let tag = if op.tags.len() > 0 {
                to_lowercase(op.tags[0].as_str())
            } else {
                copy_str("default")
            };
            proof {
                if op.tags.len() > 0 {
                    assert(op@.tags[0] == op.tags@[0]@);
                }
            }
            str_eq(path[0].as_str(), tag.as_str()) && str_eq(
                path[1].as_str(),
                op.command_name.as_str(),
            )
        } else {
            if path.len() < 1 {
                return false;
            }
            str_eq(path[0].as_str(), op.command_name.as_str())
        }
    }

    /// Whether dispatch goes through tag groups.
    fn grouped_for_dispatch(&self) -> (r: bool)
        ensures
            r == dispatch_grouped(self.spec_view().operations),
    {
        let ghost ops = self.spec_view().operations;
        let mut seen: Vec<String> = Vec::new();
        let mut i: usize = 0;
        while i < self.spec.operations.len()
            invariant
                i <= self.spec.operations.len(),
                ops == self.spec@.operations,
                ops == self.spec.operations@.map_values(|o: Operation| o@),
                texts(seen@) == group_keys(ops.take(i as int)),
            decreases self.spec.operations.len() - i,
        {
            let op = &self.spec.operations[i];
            let ghost before = seen@;
            let ghost prev = group_keys(ops.take(i as int));
            proof {
                assert(ops[i as int] == op@);
                assert(ops.take(i + 1).drop_last() =~= ops.take(i as int));
            }
            let t = if op.tags.len() > 0 {
                copy_str(op.tags[0].as_str())
            } else {
                copy_str("default")
            };
            proof {
                if op.tags.len() > 0 {
                    assert(op@.tags[0] == op.tags@[0]@);
                }
            }
            let mut found = false;
            let mut k: usize = 0;
            while k < seen.len()
                invariant
                    k <= seen.len(),
                    seen@ == before,
                    texts(before) == prev,
                    found == (exists|j: int| 0 <= j < k && prev[j] == t@),
                decreases seen.len() - k,
            {
                if str_eq(seen[k].as_str(), t.as_str()) {
                    found = true;
                }
                proof {
                    assert(prev[k as int] == seen@[k as int]@);
                }
                k = k + 1;
            }
            proof {
                if found {
                    let j = choose|j: int| 0 <= j < k && prev[j] == t@;
                    assert(prev.contains(t@));
                } else {
                    assert forall|j: int| 0 <= j < prev.len() implies prev[j] != t@ by {}
                    assert(!prev.contains(t@));
                }
            }
            if !found {
                seen.push(t);
                proof {
                    assert(texts(seen@) =~= prev.push(t@));
                }
            }
            i = i + 1;
        }
        proof {
            assert(ops.take(ops.len() as int) =~= ops);
        }
        seen.len() > 1
    }

    /// The dispatch of an invocation: which operation it names and the base
    /// URL, token and output format to call it with.
    pub fn dispatch(&self, inv: &Invocation) -> (r: Option<Dispatch>)
        ensures
            match r {
                Some(d) => dispatched(inv@, self.config_view(), self.spec_view()) == Some(d@),
                None => dispatched(inv@, self.config_view(), self.spec_view()) is None,
            },
    {
        let ghost ops = self.spec_view().operations;
        let token = match &inv.token {
            Some(t) => Some(copy_str(t.as_str())),
            None => match &self.config.auth_token {
                Some(t) => Some(copy_str(t.as_str())),
                None => None,
            },
        };
        let base_url = match &inv.base_url {
            Some(b) => copy_str(b.as_str()),
            None => match &self.config.base_url_override {
                Some(b) => copy_str(b.as_str()),
                None => if self.spec.servers.len() > 0 {
                    copy_str(self.spec.servers[0].as_str())
                } else {
                    copy_str("https://localhost")
                },
            },
        };
        let format = match &inv.output {
            Some(o) => if str_eq(o.as_str(), "raw") {
                OutputFormat::Raw
            } else {
                OutputFormat::Pretty
            },
            None => self.config.output_format,
        };
        let grouped = self.grouped_for_dispatch();
        let ghost path = inv@.subcommands;
        let mut i: usize = 0;
        proof {
            if inv.base_url is None && self.config.base_url_override is None
                && self.spec.servers.len() > 0 {
                assert(self.spec_view().servers[0] == self.spec.servers@[0]@);
            }
        }
        while i < self.spec.operations.len()
            invariant
                i <= self.spec.operations.len(),
                base_url@ == chosen_base_url(inv@, self.config_view(), self.spec_view()),
                opt_text(token) == chosen_token(inv@, self.config_view()),
                format == chosen_format(inv@, self.config_view()),
                grouped == dispatch_grouped(ops),
                ops == self.spec@.operations,
                ops == self.spec.operations@.map_values(|o: Operation| o@),
                path == texts(inv.subcommands@),
                first_named(ops, grouped, path, 0) == first_named(ops, grouped, path, i as int),
            decreases self.spec.operations.len() - i,
        {
            let op = &self.spec.operations[i];
            proof {
                assert(ops[i as int] == op@);
            }
            if Self::names(op, grouped, &inv.subcommands) {
                let d = Dispatch { operation: i, base_url, token, format };
                return Some(d);
            }
            i = i + 1;
        }
        None
    }
}

// ── Building the request ──────────────────────────────────────────────────────

/// Where a request body comes from: a file (`--body @path`) or the flag's text.
#[derive(Debug, Clone)]
pub enum BodySource {
    File(String),
    Inline(String),
}

/// An HTTP request to send.
#[derive(Debug, Clone)]
pub struct HttpRequest {
    pub method: crate::spec::HttpMethod,
    pub url: String,
    /// Sent as `Authorization: Bearer <token>`.
    pub bearer_token: Option<String>,
    pub headers: Vec<(String, String)>,
    pub query: Vec<(String, String)>,
    pub body: Option<BodySource>,
}

pub enum BodySourceView {
    File(Seq<char>),
    Inline(Seq<char>),
}

pub struct HttpRequestView {
    pub method: crate::spec::HttpMethod,
    pub url: Seq<char>,
    pub bearer_token: Option<Seq<char>>,
    pub headers: Seq<(Seq<char>, Seq<char>)>,
    pub query: Seq<(Seq<char>, Seq<char>)>,
    pub body: Option<BodySourceView>,
}

impl View for HttpRequest {
    type V = HttpRequestView;

    open spec fn view(&self) -> HttpRequestView {
        HttpRequestView {
            method: self.method,
            url: self.url@,
            bearer_token: opt_text(self.bearer_token),
            headers: pairs_view(self.headers@),
            query: pairs_view(self.query@),
            body: match self.body {
                Some(BodySource::File(p)) => Some(BodySourceView::File(p@)),
                Some(BodySource::Inline(t)) => Some(BodySourceView::Inline(t@)),
                None => None,
            },
        }
    }
}

/// The value given for the argument `id`, if any.
pub open spec fn arg_value(values: Seq<(Seq<char>, Seq<char>)>, id: Seq<char>) -> Option<Seq<char>>
    decreases values.len(),
{
    if values.len() == 0 {
        None
    } else if values[0].0 == id {
        Some(values[0].1)
    } else {
        arg_value(values.drop_first(), id)
    }
}

/// The path with each path parameter's `{name}`, in order, replaced by its value.
pub open spec fn filled_path(
    path: Seq<char>,
    ps: Seq<ParameterView>,
    values: Seq<(Seq<char>, Seq<char>)>,
) -> Seq<char>
    decreases ps.len(),
{
    if ps.len() == 0 {
        path
    } else {
        let prev = filled_path(path, ps.drop_last(), values);
        let p = ps.last();
        match arg_value(values, p.cli_name) {
            Some(v) => if p.location == crate::spec::ParamIn::Path {
                replace_all(prev, "{"@ + p.name + "}"@, v)
            } else {
                prev
            },
            None => prev,
        }
    }
}

/// The query pairs: each query parameter with a value, by its spec name.
pub open spec fn query_pairs(ps: Seq<ParameterView>, values: Seq<(Seq<char>, Seq<char>)>) -> Seq<
    (Seq<char>, Seq<char>),
>
    decreases ps.len(),
{
    if ps.len() == 0 {
        Seq::<(Seq<char>, Seq<char>)>::empty()
    } else {
        let prev = query_pairs(ps.drop_last(), values);
        let p = ps.last();
        match arg_value(values, p.cli_name) {
            Some(v) => if p.location == crate::spec::ParamIn::Query {
                prev.push((p.name, v))
            } else {
                prev
            },
            None => prev,
        }
    }
}

/// The position of the header named `k`, or -1.
pub open spec fn header_position(hs: Seq<(Seq<char>, Seq<char>)>, k: Seq<char>) -> int
    decreases hs.len(),
{
    if hs.len() == 0 {
        -1
    } else {
        let j = header_position(hs.drop_last(), k);
        if j >= 0 {
            j
        } else if hs.last().0 == k {
            hs.len() - 1
        } else {
            -1
        }
    }
}

/// The headers with `k` set to `v`: its value replaced where present, else added.
pub open spec fn header_set(hs: Seq<(Seq<char>, Seq<char>)>, k: Seq<char>, v: Seq<char>) -> Seq<
    (Seq<char>, Seq<char>),
> {
    let j = header_position(hs, k);
    if j >= 0 {
        hs.update(j, (k, v))
    } else {
        hs.push((k, v))
    }
}

/// The header parameters with a value, each name once, with its last value.
pub open spec fn header_pairs(ps: Seq<ParameterView>, values: Seq<(Seq<char>, Seq<char>)>) -> Seq<
    (Seq<char>, Seq<char>),
>
    decreases ps.len(),
{
    if ps.len() == 0 {
        Seq::<(Seq<char>, Seq<char>)>::empty()
    } else {
        let prev = header_pairs(ps.drop_last(), values);
        let p = ps.last();
        match arg_value(values, p.cli_name) {
            Some(v) => if p.location == crate::spec::ParamIn::Header {
                header_set(prev, p.name, v)
            } else {
                prev
            },
            None => prev,
        }
    }
}

/// The body of the `--body` value: a file for `@path`, else the text itself.
pub open spec fn body_source(values: Seq<(Seq<char>, Seq<char>)>) -> Option<BodySourceView> {
    match arg_value(values, "body"@) {
        Some(b) => if b.len() > 0 && b[0] == '@' {
            Some(BodySourceView::File(b.drop_first()))
        } else {
            Some(BodySourceView::Inline(b))
        },
        None => None,
    }
}

/// The request for an operation: the path filled, joined to the base URL by
/// one slash; the query and header parameters given; the body given, sent
/// as JSON.
pub open spec fn request_for(
    op: OperationView,
    values: Seq<(Seq<char>, Seq<char>)>,
    base_url: Seq<char>,
    token: Option<Seq<char>>,
) -> HttpRequestView {
    let body = body_source(values);
    HttpRequestView {
        method: op.method,
        url: trim_end(base_url, '/') + "/"@ + trim_start(
            filled_path(op.path, op.parameters, values),
            '/',
        ),
        bearer_token: token,
        headers: header_pairs(op.parameters, values) + if body is Some {
            seq![("Content-Type"@, "application/json"@)]
        } else {
            Seq::<(Seq<char>, Seq<char>)>::empty()
        },
        query: query_pairs(op.parameters, values),
        body: body,
    }
}

/// The value given for the argument `id`, if any.
fn value_of<'a>(values: &'a Vec<(String, String)>, id: &str) -> (r: Option<&'a String>)
    ensures
        opt_text(match r { Some(s) => Some(*s), None => None }) == arg_value(pairs_view(values@), id@),
{
    let ghost vs = pairs_view(values@);
    let mut i: usize = 0;
    proof {
        assert(vs.skip(0) =~= vs);
    }
    while i < values.len()
        invariant
            i <= values.len(),
            vs == pairs_view(values@),
            arg_value(vs, id@) == arg_value(vs.skip(i as int), id@),
        decreases values.len() - i,
    {
        proof {
            assert(vs.skip(i as int).drop_first() =~= vs.skip(i + 1));
            assert(vs.skip(i as int)[0] == vs[i as int]);
        }
        if str_eq(values[i].0.as_str(), id) {
            return Some(&values[i].1);
        }
        i = i + 1;
    }
    None
}

/// The headers with `k` set to `v`.
fn set_header(hs: &mut Vec<(String, String)>, k: &str, v: &str)
    ensures
        pairs_view(final(hs)@) == header_set(pairs_view(old(hs)@), k@, v@),
{
    let ghost start = pairs_view(hs@);
    let mut j: usize = 0;
    while j < hs.len()
        invariant
            j <= hs.len(),
            hs@ == old(hs)@,
            start == pairs_view(hs@),
            forall|m: int| 0 <= m < j ==> start[m].0 != k@,
        decreases hs.len() - j,
    {
        if str_eq(hs[j].0.as_str(), k) {
            proof {
                lemma_header_position_first(start, k@, j as int);
            }
            hs.set(j, (copy_str(k), copy_str(v)));
            proof {
                assert(pairs_view(hs@) =~= header_set(start, k@, v@));
            }
            return;
        }
        j = j + 1;
    }
    proof {
        lemma_header_position_absent(start, k@);
    }
    hs.push((copy_str(k), copy_str(v)));
    proof {
        assert(pairs_view(hs@) =~= header_set(start, k@, v@));
    }
}

proof fn lemma_header_position_first(hs: Seq<(Seq<char>, Seq<char>)>, k: Seq<char>, j: int)
    requires
        0 <= j < hs.len(),
        hs[j].0 == k,
        forall|m: int| 0 <= m < j ==> hs[m].0 != k,
    ensures
        header_position(hs, k) == j,
    decreases hs.len(),
{
    if j < hs.len() - 1 {
        lemma_header_position_first(hs.drop_last(), k, j);
    } else {
        lemma_header_position_absent(hs.drop_last(), k);
    }
}

proof fn lemma_header_position_absent(hs: Seq<(Seq<char>, Seq<char>)>, k: Seq<char>)
    requires
        forall|m: int| 0 <= m < hs.len() ==> hs[m].0 != k,
    ensures
        header_position(hs, k) == -1,
    decreases hs.len(),
{
    if hs.len() > 0 {
        lemma_header_position_absent(hs.drop_last(), k);
    }
}

impl DynamicCli {
    /// The request that invoking `op` with the argument `values` makes.
    pub fn build_request(
        op: &Operation,
        values: &Vec<(String, String)>,
        base_url: &str,
        token: Option<&str>,
    ) -> (r: HttpRequest)
        ensures
            r@ == request_for(
                op@,
                pairs_view(values@),
                base_url@,
                match token {
                    Some(t) => Some(t@),
                    None => None,
                },
            ),
    {
        let ghost vs = pairs_view(values@);
        let ghost ps = op@.parameters;
        let mut path = copy_str(op.path.as_str());
        let mut query: Vec<(String, String)> = Vec::new();
        let mut headers: Vec<(String, String)> = Vec::new();
        let mut i: usize = 0;
        while i < op.parameters.len()
            invariant
                i <= op.parameters.len(),
                ps == op@.parameters,
                ps == op.parameters@.map_values(|p: Parameter| p@),
                vs == pairs_view(values@),
                path@ == filled_path(op@.path, ps.take(i as int), vs),
                pairs_view(query@) == query_pairs(ps.take(i as int), vs),
                pairs_view(headers@) == header_pairs(ps.take(i as int), vs),
            decreases op.parameters.len() - i,
        {
            let param = &op.parameters[i];
            proof {
                assert(ps[i as int] == param@);
                assert(ps.take(i + 1).drop_last() =~= ps.take(i as int));
            }
            match value_of(values, param.cli_name.as_str()) {
                Some(val) => {
                    match param.location {
                        crate::spec::ParamIn::Path => {
                            let mut pat = copy_str("{");
                            push_str(&mut pat, param.name.as_str());
                            push_str(&mut pat, "}");
                            proof {
                                reveal_strlit("{");
                            }
                            path = replace_str(path.as_str(), pat.as_str(), val.as_str());
                        },
                        crate::spec::ParamIn::Query => {
                            let ghost before = query@;
                            query.push((copy_str(param.name.as_str()), copy_str(val.as_str())));
                            proof {
                                assert(pairs_view(query@) =~= pairs_view(before).push(
                                    (param.name@, val@),
                                ));
                            }
                        },
                        crate::spec::ParamIn::Header => {
                            set_header(&mut headers, param.name.as_str(), val.as_str());
                        },
                        crate::spec::ParamIn::Cookie => {},
                    }
                },
                None => {},
            }
            i = i + 1;
        }
        proof {
            assert(ps.take(ps.len() as int) =~= ps);
        }
        let base_trimmed = trim_end_matches(base_url, '/');
        let path_trimmed = trim_start_matches(path.as_str(), '/');
        let mut url = base_trimmed;
        push_str(&mut url, "/");
        push_str(&mut url, path_trimmed.as_str());
        let body = match value_of(values, "body") {
            Some(b) => {
                let cs = chars_of(b.as_str());
                if cs.len() > 0 && cs[0] == '@' {
                    let rest = string_of(&cs, 1, cs.len());
                    proof {
                        assert(cs@.subrange(1, cs@.len() as int) =~= b@.drop_first());
                    }
                    Some(BodySource::File(rest))
                } else {
                    Some(BodySource::Inline(copy_str(b.as_str())))
                }
            },
            None => None,
        };
        let ghost hs = headers@;
        match &body {
            Some(_) => {
                headers.push((copy_str("Content-Type"), copy_str("application/json")));
                proof {
                    assert(pairs_view(headers@) =~= pairs_view(hs) + seq![
                        ("Content-Type"@, "application/json"@),
                    ]);
                }
            },
            None => {
                proof {
                    assert(pairs_view(headers@) =~= pairs_view(hs) + Seq::<
                        (Seq<char>, Seq<char>),
                    >::empty());
                }
            },
        }
        let bearer_token = match token {
            Some(t) => Some(copy_str(t)),
            None => None,
        };
        HttpRequest { method: op.method, url, bearer_token, headers, query, body }
    }
}

// ── Rendering the response ────────────────────────────────────────────────────

/// The indented text that `serde_json::to_string_pretty` writes for a value,
/// or its error's text.
pub uninterp spec fn json_pretty(v: JsonValue) -> Result<Seq<char>, Seq<char>>;

/// `serde_json::to_string_pretty`: the value as indented JSON text. The
/// result is a function of the value alone.
#[verifier::external_body]
fn pretty_text(v: &JsonValue) -> (r: Result<String, String>)
    ensures
        match r {
            Ok(p) => json_pretty(*v) == Ok::<Seq<char>, Seq<char>>(p@),
            Err(e) => json_pretty(*v) == Err::<Seq<char>, Seq<char>>(e@),
        },
{
    serde_json::to_string_pretty(&to_serde(v)).map_err(|e| e.to_string())
}

/// The text printed for a response, and whether the call failed.
#[derive(Debug, Clone)]
pub struct ResponseOutput {
    pub text: String,
    pub failed: bool,
}

/// The printed text and failure flag of a response: the body itself for raw
/// output or a body that is not JSON, else the body pretty-printed; an error
/// when pretty-printing fails.
pub open spec fn rendered(format: OutputFormat, success: bool, body: Seq<char>) -> Result<
    (Seq<char>, bool),
    Seq<char>,
> {
    match format {
        OutputFormat::Raw => Ok((body, !success)),
        OutputFormat::Pretty => match json_reading(body) {
            Some(v) => match json_pretty(v) {
                Ok(p) => Ok((p, !success)),
                Err(e) => Err(e),
            },
            None => Ok((body, !success)),
        },
    }
}

impl DynamicCli {
    /// How a response with the given success and body is shown.
    pub fn render_response(format: OutputFormat, success: bool, body: &str) -> (r: Result<
        ResponseOutput,
        String,
    >)
        ensures
            rendered(format, success, body@) == match r {
                Ok(o) => Ok((o.text@, o.failed)),
                Err(e) => Err(e@),
            },
    {
        match format {
            OutputFormat::Raw => Ok(ResponseOutput { text: copy_str(body), failed: !success }),
            OutputFormat::Pretty => match read_json(body) {
                Some(v) => match pretty_text(&v) {
                    Ok(p) => Ok(ResponseOutput { text: p, failed: !success }),
                    Err(e) => Err(e),
                },
                None => Ok(ResponseOutput { text: copy_str(body), failed: !success }),
            },
        }
    }
}

// ── App names ─────────────────────────────────────────────────────────────────

/// The characters after the last `/` or `\`.
pub open spec fn last_segment(s: Seq<char>) -> Seq<char>
    decreases s.len(),
{
    if s.len() == 0 {
        s
    } else if s.last() == '/' || s.last() == '\\' {
        Seq::<char>::empty()
    } else {
        last_segment(s.drop_last()).push(s.last())
    }
}

/// The characters before the first `c`.
pub open spec fn before_first(s: Seq<char>, c: char) -> Seq<char>
    decreases s.len(),
{
    if s.len() == 0 {
        s
    } else if s[0] == c {
        Seq::<char>::empty()
    } else {
        seq![s[0]] + before_first(s.drop_first(), c)
    }
}

/// The characters before the last `.`, if there is one.
pub open spec fn before_last_dot(s: Seq<char>) -> Option<Seq<char>>
    decreases s.len(),
{
    if s.len() == 0 {
        None
    } else if s.last() == '.' {
        Some(s.drop_last())
    } else {
        before_last_dot(s.drop_last())
    }
}

/// The app name for a spec URL or path: its last segment, without query
/// string, fragment and extension; `api` when that is empty.
pub open spec fn app_name_for(spec: Seq<char>) -> Seq<char> {
    let last = before_first(before_first(last_segment(spec), '?'), '#');
    let stem = match before_last_dot(last) {
        Some(s) => s,
        None => last,
    };
    if stem.len() == 0 {
        "api"@
    } else {
        stem
    }
}

/// Derive a short, readable app name from a spec URL or file path.
///
/// ```text
/// "https://petstore.swagger.io/v2/swagger.json" → "swagger"
/// "/path/to/openapi.yaml"                        → "openapi"
/// "myapi.json"                                   → "myapi"
/// ```
pub fn derive_app_name(spec: &str) -> (r: String)
    ensures
        r@ == app_name_for(spec@),
        r@.len() > 0,
{
    proof {
        crate::laws::app_name_never_empty(spec@);
    }
    let cs = chars_of(spec);
    // Start of the last segment.
    let mut start: usize = cs.len();
    proof {
        assert(cs@.take(cs@.len() as int) =~= cs@);
        assert(cs@ + cs@.subrange(cs@.len() as int, cs@.len() as int) =~= cs@);
    }
    while start > 0 && cs[start - 1] != '/' && cs[start - 1] != '\\'
        invariant
            start <= cs.len(),
            last_segment(cs@) == last_segment(cs@.take(start as int)) + cs@.subrange(
                start as int,
                cs@.len() as int,
            ),
        decreases start,
    {
        proof {
            assert(cs@.take(start as int).drop_last() =~= cs@.take(start - 1));
            assert(cs@.subrange(start - 1, cs@.len() as int) =~= seq![cs@[start - 1]]
                + cs@.subrange(start as int, cs@.len() as int));
        }
        start = start - 1;
    }
    proof {
        assert(cs@ =~= cs@.take(cs@.len() as int));
        assert(cs@.subrange(cs@.len() as int, cs@.len() as int) =~= Seq::<char>::empty());
        if start > 0 {
            assert(cs@.take(start as int).last() == cs@[start - 1]);
        }
        assert(last_segment(cs@.take(start as int)) =~= Seq::<char>::empty());
    }
    let ghost seg = cs@.subrange(start as int, cs@.len() as int);
    // End of the part before `?`, then before `#`.
    let mut q: usize = start;
    while q < cs.len() && cs[q] != '?'
        invariant
            start <= q <= cs.len(),
            seg == cs@.subrange(start as int, cs@.len() as int),
            before_first(seg, '?') == cs@.subrange(start as int, q as int) + before_first(
                cs@.subrange(q as int, cs@.len() as int),
                '?',
            ),
        decreases cs.len() - q,
    {
        proof {
            assert(cs@.subrange(q as int, cs@.len() as int).drop_first() =~= cs@.subrange(
                q + 1,
                cs@.len() as int,
            ));
            assert(cs@.subrange(start as int, q + 1) =~= cs@.subrange(start as int, q as int).push(
                cs@[q as int],
            ));
        }
        q = q + 1;
    }
    proof {
        assert(before_first(cs@.subrange(q as int, cs@.len() as int), '?') =~= Seq::<
            char,
        >::empty());
    }
    let ghost part = cs@.subrange(start as int, q as int);
    let mut h: usize = start;
    while h < q && cs[h] != '#'
        invariant
            start <= h <= q <= cs.len(),
            part == cs@.subrange(start as int, q as int),
            before_first(part, '#') == cs@.subrange(start as int, h as int) + before_first(
                cs@.subrange(h as int, q as int),
                '#',
            ),
        decreases q - h,
    {
        proof {
            assert(cs@.subrange(h as int, q as int).drop_first() =~= cs@.subrange(
                h + 1,
                q as int,
            ));
            assert(cs@.subrange(start as int, h + 1) =~= cs@.subrange(start as int, h as int).push(
                cs@[h as int],
            ));
        }
        h = h + 1;
    }
    proof {
        assert(before_first(cs@.subrange(h as int, q as int), '#') =~= Seq::<char>::empty());
    }
    let ghost last = cs@.subrange(start as int, h as int);
    // The last dot in `last`.
    let mut d: usize = h;
    while d > start && cs[d - 1] != '.'
        invariant
            start <= d <= h,
            h <= cs.len(),
            last == cs@.subrange(start as int, h as int),
            before_last_dot(last) == before_last_dot(cs@.subrange(start as int, d as int)),
        decreases d,
    {
        proof {
            assert(cs@.subrange(start as int, d as int).drop_last() =~= cs@.subrange(
                start as int,
                d - 1,
            ));
        }
        d = d - 1;
    }
    let stem = if d > start {
        proof {
            assert(cs@.subrange(start as int, d as int).drop_last() =~= cs@.subrange(
                start as int,
                d - 1,
            ));
        }
        string_of(&cs, start, d - 1)
    } else {
        string_of(&cs, start, h)
    };
    if chars_of(stem.as_str()).len() == 0 {
        copy_str("api")
    } else {
        stem
    }
}

} // verus!
