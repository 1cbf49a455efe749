//! Stack outputs: each declaration names a stack, and the lookup brings back
//! the outputs of the stack. A declaration with a key and an output name
//! takes that one output; any other takes them all.

use vstd::prelude::*;
use vstd::string::StrSliceExecFns;
use vstd::utf8::encode_utf8;
use crate::backend::{
    earlier_wins, lookups_of, plan_lookups, resolve_each, Fetched, Lookup, LookupView, RemoteValue,
    StackOutput,
};
use crate::crd::{copy_secret_data, Backend, BackendType, SecretData};
use crate::key_order::same_text;
use crate::sorted_map::{pairs_map, SecretMap};
use crate::value::{field_map, rsecret_data_to_secret_data, text_result, ValueError};

verus! {

/// A stack as a description of stacks holds it.
#[derive(Clone, Debug)]
pub struct Stack {
    pub outputs: Option<Vec<StackOutput>>,
}

/// An optional text, or the empty text in its place.
pub open spec fn text_or_empty(s: Option<String>) -> Seq<char> {
    match s {
        Some(t) => t@,
        None => Seq::empty(),
    }
}

/// The outputs of the first stack of a description; none where that stack
/// has none; an error where the description holds no stack.
pub open spec fn first_stack_outputs(stacks: Option<Vec<Stack>>) -> Result<Seq<StackOutput>, ValueError> {
    match stacks {
        None => Err(ValueError::NotFound),
        Some(list) => if list@.len() == 0 {
            Err(ValueError::NotFound)
        } else {
            match list@[0].outputs {
                Some(outputs) => Ok(outputs@),
                None => Ok(Seq::empty()),
            }
        },
    }
}

/// The outputs of the first stack of a description of stacks.
pub fn get_cloudformation_outputs(stacks: Option<Vec<Stack>>) -> (r: Result<Vec<StackOutput>, ValueError>)
    ensures
        match r {
            Ok(outputs) => first_stack_outputs(stacks) == Ok::<Seq<StackOutput>, ValueError>(
                outputs@,
            ),
            Err(e) => first_stack_outputs(stacks) == Err::<Seq<StackOutput>, ValueError>(e),
        },
{
    match stacks {
        None => Err(ValueError::NotFound),
        Some(mut list) => if list.len() == 0 {
            Err(ValueError::NotFound)
        } else {
            let first = list.swap_remove(0);
            match first.outputs {
                Some(outputs) => Ok(outputs),
                None => Ok(Vec::new()),
            }
        },
    }
}

/// The value of the first output that has the name `name`.
pub open spec fn output_named(outputs: Seq<StackOutput>, name: Seq<char>) -> Option<Seq<char>>
    decreases outputs.len(),
{
    if outputs.len() == 0 {
        None
    } else if text_or_empty(outputs[0].output_key) == name {
        Some(text_or_empty(outputs[0].output_value))
    } else {
        output_named(outputs.drop_first(), name)
    }
}

/// The value of the first output that has the name `name`, or the error
/// where no output has it.
pub open spec fn named_output(outputs: Seq<StackOutput>, name: Seq<char>) -> Result<Seq<char>, ValueError> {
    match output_named(outputs, name) {
        Some(value) => Ok(value),
        None => Err(ValueError::NotFound),
    }
}

/// The text of an optional string, empty where there is none.
fn text_of(s: &Option<String>) -> (r: &str)
    ensures
        r@ == text_or_empty(*s),
{
    match s {
        Some(t) => t.as_str(),
        None => {
            proof {
                reveal_strlit("");
            }
            assert(""@ =~= Seq::<char>::empty());
            ""
        },
    }
}

/// The value of the output of a stack that has the name `remote_path`.
pub fn get_cloudformation_output(outputs: &Vec<StackOutput>, remote_path: &str) -> (r: Result<
    String,
    ValueError,
>)
    ensures
        text_result(r) == named_output(outputs@, remote_path@),
{
    let mut i: usize = 0;
    assert(outputs@.skip(0) =~= outputs@);
    while i < outputs.len()
        invariant
            i <= outputs@.len(),
            output_named(outputs@, remote_path@) == output_named(
                outputs@.skip(i as int),
                remote_path@,
            ),
        decreases outputs@.len() - i,
    {
        proof {
            assert(outputs@.skip(i as int)[0] == outputs@[i as int]);
            assert(outputs@.skip(i as int).drop_first() =~= outputs@.skip(i + 1));
        }
        if same_text(text_of(&outputs[i].output_key), remote_path) {
            return Ok(text_of(&outputs[i].output_value).to_owned());
        }
        i = i + 1;
    }
    Err(ValueError::NotFound)
}

/// An output as an entry of a secret: its name beside the bytes of its value.
pub open spec fn output_pair(o: StackOutput) -> (Seq<char>, Seq<u8>) {
    (text_or_empty(o.output_key), encode_utf8(text_or_empty(o.output_value)))
}

/// The entries that the outputs of a stack make; of two outputs with one
/// name the later stays.
pub open spec fn outputs_map(outputs: Seq<StackOutput>) -> Map<Seq<char>, Seq<u8>> {
    pairs_map(outputs.map_values(|o: StackOutput| output_pair(o)))
}

/// Every output of a stack as an entry of a secret.
pub fn get_cloudformation_outputs_as_secret_data(outputs: &Vec<StackOutput>) -> (r: SecretMap)
    ensures
        r@ == outputs_map(outputs@),
{
    let mut secrets = SecretMap::new();
    let ghost pairs = outputs@.map_values(|o: StackOutput| output_pair(o));
    let mut i: usize = 0;
    assert(pairs.take(0) =~= Seq::empty());
    while i < outputs.len()
        invariant
            i <= outputs@.len(),
            pairs == outputs@.map_values(|o: StackOutput| output_pair(o)),
            secrets@ == pairs_map(pairs.take(i as int)),
        decreases outputs@.len() - i,
    {
        secrets.insert(
            text_of(&outputs[i].output_key).to_owned(),
            text_of(&outputs[i].output_value).as_bytes_vec(),
        );
        proof {
            assert(pairs.take(i + 1).drop_last() =~= pairs.take(i as int));
            assert(pairs.take(i + 1).last() == output_pair(outputs@[i as int]));
        }
        i = i + 1;
    }
    assert(pairs.take(i as int) =~= pairs);
    secrets
}

/// Whether a declaration takes one output: it has a key and the name of an
/// output.
pub open spec fn takes_one_output(field: SecretData) -> bool {
    field.key is Some && field.remote_path is Some
}

/// The entries that a declaration makes of the outputs of its stack; none
/// where the lookup failed or the output that it names is not there.
pub open spec fn cloudformation_part(field: SecretData, fetched: Fetched) -> Map<Seq<char>, Seq<u8>> {
    match fetched {
        Fetched::Outputs(outputs) => if takes_one_output(field) {
            match output_named(outputs@, text_or_empty(field.remote_path)) {
                Some(value) => field_map(field, value),
                None => Map::empty(),
            }
        } else {
            outputs_map(outputs@)
        },
        _ => Map::empty(),
    }
}

/// The entries that `field` makes of the outputs of its stack.
pub fn cloudformation_entries(field: &SecretData, fetched: &Fetched) -> (r: SecretMap)
    ensures
        r@ == cloudformation_part(*field, *fetched),
{
    match fetched {
        Fetched::Outputs(outputs) => {
            if field.key.is_some() && field.remote_path.is_some() {
                match get_cloudformation_output(outputs, text_of(&field.remote_path)) {
                    Ok(value) => rsecret_data_to_secret_data(field, value.as_str()),
                    Err(_) => SecretMap::new(),
                }
            } else {
                get_cloudformation_outputs_as_secret_data(outputs)
            }
        },
        _ => SecretMap::new(),
    }
}

/// The resolver of stack outputs.
#[derive(Clone, Debug)]
pub struct Cloudformation {
    data: Vec<SecretData>,
}

impl RemoteValue for Cloudformation {
    closed spec fn declared(&self) -> Seq<SecretData> {
        self.data@
    }

    open spec fn planned(&self) -> Seq<LookupView> {
        lookups_of(BackendType::Cloudformation, self.declared(), None)
    }

    open spec fn resolved(&self, fetched: Seq<Fetched>) -> Map<Seq<char>, Seq<u8>> {
        earlier_wins(
            self.declared(),
            fetched,
            |d: SecretData, f: Fetched| cloudformation_part(d, f),
        )
    }

    fn from_backend(backend: &Backend) -> (r: Cloudformation) {
        Cloudformation { data: copy_secret_data(&backend.data) }
    }

    fn lookups(&self) -> (r: Vec<Lookup>) {
        plan_lookups(BackendType::Cloudformation, &self.data, &None)
    }

    fn get_value(&self, fetched: &Vec<Fetched>) -> (r: SecretMap) {
        resolve_each(
            &self.data,
            fetched,
            cloudformation_entries,
            Ghost(|d: SecretData, f: Fetched| cloudformation_part(d, f)),
        )
    }
}

/// The entries that the declarations of a stack output backend make of what
/// was fetched for them.
pub fn get_cloudformation_stack_secret_data(backend: &Backend, fetched: &Vec<Fetched>) -> (r:
    SecretMap)
    ensures
        r@ == earlier_wins(
            backend.data@,
            fetched@,
            |d: SecretData, f: Fetched| cloudformation_part(d, f),
        ),
{
    Cloudformation::from_backend(backend).get_value(fetched)
}

} // verus!
