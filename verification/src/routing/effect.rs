//! Descriptions of effects: their identity, their named input and output
//! slots, and the route graph that implements them.

use vstd::prelude::*;

use crate::routing::adjlist::AdjList;

verus! {

/// A named input slot of an effect, read from the given channel.
#[derive(Clone, Debug)]
pub struct EffectInput {
    pub name: String,
    pub channel: u32,
}

impl EffectInput {
    pub open spec fn spec_name(self) -> Seq<char> {
        self.name@
    }

    pub open spec fn spec_channel(self) -> u32 {
        self.channel
    }

    pub fn new(name: String, channel: u32) -> (r: EffectInput)
        ensures
            r.spec_name() == name@,
            r.spec_channel() == channel,
    {
        EffectInput { name, channel }
    }

    pub fn name(&self) -> (r: &String)
        ensures
            r@ == self.spec_name(),
    {
        &self.name
    }

    pub fn channel(&self) -> (r: u32)
        ensures
            r == self.spec_channel(),
    {
        self.channel
    }
}

/// A named output slot of an effect, written to the given channel.
#[derive(Clone, Debug)]
pub struct EffectOutput {
    pub name: String,
    pub channel: u32,
}

impl EffectOutput {
    pub open spec fn spec_name(self) -> Seq<char> {
        self.name@
    }

    pub open spec fn spec_channel(self) -> u32 {
        self.channel
    }

    pub fn new(name: String, channel: u32) -> (r: EffectOutput)
        ensures
            r.spec_name() == name@,
            r.spec_channel() == channel,
    {
        EffectOutput { name, channel }
    }

    pub fn name(&self) -> (r: &String)
        ensures
            r@ == self.spec_name(),
    {
        &self.name
    }

    pub fn channel(&self) -> (r: u32)
        ensures
            r == self.spec_channel(),
    {
        self.channel
    }
}

/// What identifies an effect: its name and, when known, the digest of its definition.
#[derive(Clone, Debug)]
pub struct EffectId {
    pub name: String,
    pub sha256: Option<String>,
}

impl EffectId {
    pub open spec fn spec_name(self) -> Seq<char> {
        self.name@
    }

    /// The digest, by its characters.
    pub open spec fn spec_sha256(self) -> Option<Seq<char>> {
        match self.sha256 {
            Some(s) => Some(s@),
            None => None,
        }
    }

    pub fn new(name: String, sha256: Option<String>) -> (r: EffectId)
        ensures
            r.spec_name() == name@,
            r.spec_sha256() == (match sha256 {
                Some(s) => Some(s@),
                None => None::<Seq<char>>,
            }),
    {
        EffectId { name, sha256 }
    }

    pub fn name(&self) -> (r: &String)
        ensures
            r@ == self.spec_name(),
    {
        &self.name
    }
}

/// The metadata of an effect: its name, optional digest, and its input and
/// output slots, each keyed by slot index.
#[derive(Clone, Debug)]
pub struct EffectMeta {
    pub name: String,
    pub sha256: Option<String>,
    pub inputs: Vec<(u32, EffectInput)>,
    pub outputs: Vec<(u32, EffectOutput)>,
}

impl EffectMeta {
    pub open spec fn spec_name(self) -> Seq<char> {
        self.name@
    }

    pub open spec fn spec_sha256(self) -> Option<Seq<char>> {
        match self.sha256 {
            Some(s) => Some(s@),
            None => None,
        }
    }

    pub open spec fn spec_inputs(self) -> Seq<(u32, EffectInput)> {
        self.inputs@
    }

    pub open spec fn spec_outputs(self) -> Seq<(u32, EffectOutput)> {
        self.outputs@
    }

    pub fn new(
        name: String,
        sha256: Option<String>,
        inputs: Vec<(u32, EffectInput)>,
        outputs: Vec<(u32, EffectOutput)>,
    ) -> (r: EffectMeta)
        ensures
            r.spec_name() == name@,
            r.spec_sha256() == (match sha256 {
                Some(s) => Some(s@),
                None => None::<Seq<char>>,
            }),
            r.spec_inputs() == inputs@,
            r.spec_outputs() == outputs@,
    {
        EffectMeta { name, sha256, inputs, outputs }
    }

    pub fn name(&self) -> (r: &String)
        ensures
            r@ == self.spec_name(),
    {
        &self.name
    }

    pub fn inputs(&self) -> (r: &Vec<(u32, EffectInput)>)
        ensures
            r@ == self.spec_inputs(),
    {
        &self.inputs
    }

    pub fn outputs(&self) -> (r: &Vec<(u32, EffectOutput)>)
        ensures
            r@ == self.spec_outputs(),
    {
        &self.outputs
    }

    /// The identity of the effect this metadata describes.
    pub fn id(&self) -> (r: EffectId)
        ensures
            r.spec_name() == self.spec_name(),
            r.spec_sha256() == self.spec_sha256(),
    {
        let sha256 = match &self.sha256 {
            Some(s) => Some(s.clone()),
            None => None,
        };
        EffectId { name: self.name.clone(), sha256 }
    }
}

/// A full effect description: its metadata and the route graph that computes it.
#[derive(Clone, Debug)]
pub struct EffectDesc {
    pub meta: EffectMeta,
    pub procedure: AdjList,
}

impl EffectDesc {
    pub open spec fn spec_meta(self) -> EffectMeta {
        self.meta
    }

    pub open spec fn spec_procedure(self) -> AdjList {
        self.procedure
    }

    pub fn new(meta: EffectMeta, procedure: AdjList) -> (r: EffectDesc)
        ensures
            r.spec_meta() == meta,
            r.spec_procedure() == procedure,
    {
        EffectDesc { meta, procedure }
    }

    pub fn meta(&self) -> (r: &EffectMeta)
        ensures
            *r == self.spec_meta(),
    {
        &self.meta
    }

    pub fn procedure(&self) -> (r: &AdjList)
        ensures
            *r == self.spec_procedure(),
    {
        &self.procedure
    }

    /// The identity of the described effect, taken from its metadata.
    pub fn id(&self) -> (r: EffectId)
        ensures
            r.spec_name() == self.spec_meta().spec_name(),
            r.spec_sha256() == self.spec_meta().spec_sha256(),
    {
        self.meta.id()
    }
}

} // verus!
