//! The shipper's configuration: the global options, the declared inputs,
//! transforms and outputs, the routes that wire them together, and the
//! sanity rules a configuration must pass before any route is built.

use vstd::prelude::*;
use vstd::string::*;

use crate::json::{vget, vindex_of, vset, fields_view};
use crate::text::str_eq;

verus! {

/// A configuration option value, as plain values. A floating-point option
/// is carried as its decimal text.
#[derive(Debug)]
#[verifier::ext_equal]
pub enum ArgValue {
    Str(String),
    Int(i64),
    Bool(bool),
    FloatText(String),
    Arr(Vec<ArgValue>),
}

/// A plugin's options: name-value pairs, first occurrence winning.
pub type Args = Vec<(String, ArgValue)>;

/// The first value under `key`, if any.
pub fn args_get<'a>(args: &'a Args, key: &str) -> (r: Option<&'a ArgValue>)
    ensures
        match r {
            Some(v) => vget(fields_view(args@), key@) == Some(*v),
            None => vget(fields_view(args@), key@) is None,
        },
{
    proof {
        lemma_args_index(args@, key@, 0);
    }
    let mut i: usize = 0;
    while i < args.len()
        invariant
            i <= args@.len(),
            forall|t: int| 0 <= t < i ==> #[trigger] args@[t].0@ != key@,
        decreases args@.len() - i,
    {
        if str_eq(args[i].0.as_str(), key) {
            proof {
                lemma_args_index(args@, key@, i as int);
            }
            return Some(&args[i].1);
        }
        i = i + 1;
    }
    proof {
        lemma_args_index(args@, key@, args@.len() as int);
    }
    None
}

/// If every pair before `i` misses `key`, the viewed lookup index is at
/// least `i`; and if pair `i` matches, it is exactly `i`.
proof fn lemma_args_index(args: Seq<(String, ArgValue)>, key: Seq<char>, i: int)
    requires
        0 <= i <= args.len(),
        forall|t: int| 0 <= t < i ==> #[trigger] args[t].0@ != key,
    ensures
        vindex_of(fields_view(args), key) >= i,
        0 <= vindex_of(fields_view(args), key) <= args.len(),
        i < args.len() && args[i].0@ == key ==> vindex_of(fields_view(args), key) == i,
        vindex_of(fields_view(args), key) < args.len() ==> args[vindex_of(
            fields_view(args),
            key,
        )].0@ == key,
    decreases args.len(),
{
    if args.len() > 0 {
        assert(fields_view(args)[0] == (args[0].0@, args[0].1));
        if args[0].0@ != key {
            assert forall|t: int| 0 <= t < i - 1 implies #[trigger] args.drop_first()[t].0@
                != key by {
                assert(args.drop_first()[t] == args[t + 1]);
            };
            lemma_args_index(args.drop_first(), key, if i > 0 {
                i - 1
            } else {
                0
            });
            assert(fields_view(args).drop_first() =~= fields_view(args.drop_first()));
            if i < args.len() && args[i].0@ == key {
                assert(args.drop_first()[i - 1] == args[i]);
            }
        }
    }
}

/// The shipper's global options.
#[derive(Debug)]
pub struct Globals {
    pub channel_size: i64,
    pub log_file: Option<String>,
}

/// The default capacity of a route's channel.
pub fn default_channel_size() -> (r: i64)
    ensures
        r == 128,
{
    128
}

/// A declared input.
#[derive(Debug)]
pub struct Input {
    pub name: String,
    pub input_type: String,
    pub description: Option<String>,
    pub args: Args,
}

/// A declared output.
#[derive(Debug)]
pub struct Output {
    pub name: String,
    pub output_type: String,
    pub description: Option<String>,
    pub args: Args,
}

/// A declared transform.
#[derive(Debug)]
pub struct Transform {
    pub name: String,
    pub transform_type: String,
    pub description: Option<String>,
    pub args: Args,
}

/// A route: one input through transforms to one output, all by name.
#[derive(Debug)]
pub struct Route {
    pub name: String,
    pub input: String,
    pub transforms: Vec<String>,
    pub output: String,
}

/// The whole configuration file.
#[derive(Debug)]
pub struct ConfigFile {
    pub globals: Globals,
    pub inputs: Vec<Input>,
    pub transforms: Vec<Transform>,
    pub outputs: Vec<Output>,
    pub routes: Vec<Route>,
}

/// Why a configuration was rejected. The route errors carry the offending
/// route and the reference it could not resolve, so the error can be
/// surfaced with both names.
#[derive(Debug)]
pub enum ShipConfigError {
    /// `channel_size` lies outside `[2, 1024]`.
    BadChannelSize,
    /// No route is declared.
    NoRoutes,
    /// A route names an input that is not declared.
    MissingInput { route: String, name: String },
    /// A route names a transform that is not declared.
    MissingTransform { route: String, name: String },
    /// A route names an output that is not declared.
    MissingOutput { route: String, name: String },
}

/// Whether a declared input of that name exists.
pub open spec fn has_input(inputs: Seq<Input>, name: Seq<char>) -> bool {
    exists|i: int| 0 <= i < inputs.len() && (#[trigger] inputs[i]).name@ == name
}

/// Whether a declared transform of that name exists.
pub open spec fn has_transform(transforms: Seq<Transform>, name: Seq<char>) -> bool {
    exists|i: int| 0 <= i < transforms.len() && (#[trigger] transforms[i]).name@ == name
}

/// Whether a declared output of that name exists.
pub open spec fn has_output(outputs: Seq<Output>, name: Seq<char>) -> bool {
    exists|i: int| 0 <= i < outputs.len() && (#[trigger] outputs[i]).name@ == name
}

/// Whether every reference of the route resolves.
pub open spec fn route_resolves(c: ConfigFile, r: Route) -> bool {
    &&& has_input(c.inputs@, r.input@)
    &&& forall|j: int|
        0 <= j < r.transforms@.len() ==> has_transform(
            c.transforms@,
            (#[trigger] r.transforms@[j])@,
        )
    &&& has_output(c.outputs@, r.output@)
}

/// Whether the whole configuration is accepted: a channel capacity in
/// `[2, 1024]`, at least one route, and every route resolving.
pub open spec fn config_ok(c: ConfigFile) -> bool {
    &&& 2 <= c.globals.channel_size <= 1024
    &&& c.routes@.len() > 0
    &&& forall|i: int| 0 <= i < c.routes@.len() ==> route_resolves(c, #[trigger] c.routes@[i])
}

fn find_input(inputs: &Vec<Input>, name: &str) -> (r: bool)
    ensures
        r == has_input(inputs@, name@),
{
    let mut i: usize = 0;
    while i < inputs.len()
        invariant
            i <= inputs@.len(),
            forall|t: int| 0 <= t < i ==> (#[trigger] inputs@[t]).name@ != name@,
        decreases inputs@.len() - i,
    {
        if str_eq(inputs[i].name.as_str(), name) {
            return true;
        }
        i = i + 1;
    }
    false
}

fn find_transform(transforms: &Vec<Transform>, name: &str) -> (r: bool)
    ensures
        r == has_transform(transforms@, name@),
{
    let mut i: usize = 0;
    while i < transforms.len()
        invariant
            i <= transforms@.len(),
            forall|t: int| 0 <= t < i ==> (#[trigger] transforms@[t]).name@ != name@,
        decreases transforms@.len() - i,
    {
        if str_eq(transforms[i].name.as_str(), name) {
            return true;
        }
        i = i + 1;
    }
    false
}

fn find_output(outputs: &Vec<Output>, name: &str) -> (r: bool)
    ensures
        r == has_output(outputs@, name@),
{
    let mut i: usize = 0;
    while i < outputs.len()
        invariant
            i <= outputs@.len(),
            forall|t: int| 0 <= t < i ==> (#[trigger] outputs@[t]).name@ != name@,
        decreases outputs@.len() - i,
    {
        if str_eq(outputs[i].name.as_str(), name) {
            return true;
        }
        i = i + 1;
    }
    false
}

impl ConfigFile {
    /// Sanity checks the configuration file: the channel capacity must lie
    /// in `[2, 1024]`, at least one route must be declared, and every
    /// route's input, transforms and output must resolve to declarations.
    pub fn sanity_check(&self) -> (r: Result<(), ShipConfigError>)
        ensures
            r is Ok <==> config_ok(*self),
            r matches Err(e) ==> {
                &&& (e is BadChannelSize ==> !(2 <= self.globals.channel_size <= 1024))
                &&& (e is NoRoutes ==> self.routes@.len() == 0)
                &&& (e matches ShipConfigError::MissingInput { route, name } ==> exists|i: int|
                    0 <= i < self.routes@.len() && (#[trigger] self.routes@[i]).name@ == route@
                        && self.routes@[i].input@ == name@ && !has_input(self.inputs@, name@))
                &&& (e matches ShipConfigError::MissingTransform { route, name } ==> exists|
                    i: int,
                    j: int,
                |
                    0 <= i < self.routes@.len() && (#[trigger] self.routes@[i]).name@ == route@
                        && 0 <= j < self.routes@[i].transforms@.len() && (
                    #[trigger] self.routes@[i].transforms@[j])@ == name@ && !has_transform(
                        self.transforms@,
                        name@,
                    ))
                &&& (e matches ShipConfigError::MissingOutput { route, name } ==> exists|i: int|
                    0 <= i < self.routes@.len() && (#[trigger] self.routes@[i]).name@ == route@
                        && self.routes@[i].output@ == name@ && !has_output(self.outputs@, name@))
            },
    {
        if self.globals.channel_size < 2 || self.globals.channel_size > 1024 {
            return Err(ShipConfigError::BadChannelSize);
        }
        if self.routes.len() == 0 {
            return Err(ShipConfigError::NoRoutes);
        }
        let mut i: usize = 0;
        while i < self.routes.len()
            invariant
                i <= self.routes@.len(),
                forall|t: int|
                    0 <= t < i ==> route_resolves(*self, #[trigger] self.routes@[t]),
            decreases self.routes@.len() - i,
        {
            let route = &self.routes[i];
            if !find_input(&self.inputs, route.input.as_str()) {
                return Err(
                    ShipConfigError::MissingInput {
                        route: route.name.clone(),
                        name: route.input.clone(),
                    },
                );
            }
            let mut j: usize = 0;
            while j < route.transforms.len()
                invariant
                    i < self.routes@.len(),
                    route == &self.routes@[i as int],
                    j <= route.transforms@.len(),
                    forall|t: int|
                        0 <= t < j ==> has_transform(
                            self.transforms@,
                            (#[trigger] route.transforms@[t])@,
                        ),
                decreases route.transforms@.len() - j,
            {
                if !find_transform(&self.transforms, route.transforms[j].as_str()) {
                    return Err(
                        ShipConfigError::MissingTransform {
                            route: route.name.clone(),
                            name: route.transforms[j].clone(),
                        },
                    );
                }
                j = j + 1;
            }
            if !find_output(&self.outputs, route.output.as_str()) {
                return Err(
                    ShipConfigError::MissingOutput {
                        route: route.name.clone(),
                        name: route.output.clone(),
                    },
                );
            }
            i = i + 1;
        }
        Ok(())
    }
}

/// Merges the global options into a plugin's own: every option is kept, and
/// `channel_size` is set from the globals, replacing any local value.
pub fn merge_globals(args: Args, globals: &Globals) -> (r: Args)
    ensures
        fields_view(r@) == vset(
            fields_view(args@),
            "channel_size"@,
            ArgValue::Int(globals.channel_size),
        ),
{
    let mut ret = args;
    let key = String::from_str("channel_size");
    args_set(&mut ret, key, ArgValue::Int(globals.channel_size));
    ret
}

/// Sets one option, replacing the first pair of that name or appending.
pub fn args_set(args: &mut Args, key: String, value: ArgValue)
    ensures
        fields_view(final(args)@) == vset(fields_view(old(args)@), key@, value),
{
    proof {
        lemma_args_index(old(args)@, key@, 0);
    }
    let n = args.len();
    let mut i: usize = 0;
    while i < n
        invariant
            n == args@.len(),
            i <= n,
            args@ == old(args)@,
            forall|t: int| 0 <= t < i ==> #[trigger] args@[t].0@ != key@,
        decreases n - i,
    {
        if str_eq(args[i].0.as_str(), key.as_str()) {
            proof {
                lemma_args_index(args@, key@, i as int);
            }
            let k = args[i].0.clone();
            args.set(i, (k, value));
            proof {
                assert(fields_view(args@) =~= vset(fields_view(old(args)@), key@, value));
            }
            return ;
        }
        i = i + 1;
    }
    proof {
        lemma_args_index(args@, key@, n as int);
    }
    args.push((key, value));
    proof {
        assert(fields_view(args@) =~= vset(fields_view(old(args)@), key@, value));
    }
}

} // verus!
