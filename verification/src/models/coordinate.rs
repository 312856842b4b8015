//! Describing and matching `uses:` "coordinates": a coordinate is a set of
//! conditions a step can match, such as "uses this action, with this
//! controlling input enabled".

use vstd::prelude::*;
use vstd::string::*;
use crate::models::{Env, EnvValue, Step, StepBody, Uses, env_lookup, uses_split_spec};
use crate::text::{lower_seq, matches_at, str_eq};
use crate::utils::{curly_form, ExplicitExpr};

verus! {

/// Which way the controlling input toggles the behavior.
#[derive(Copy, Clone, Debug, PartialEq, Eq, Structural)]
pub enum Toggle {
    /// The behavior is enabled when the control value matches.
    OptIn,
    /// The behavior is disabled when the control value matches.
    OptOut,
}

/// The value type of the controlling input.
#[derive(Copy, Clone, Debug, PartialEq, Eq, Structural)]
pub enum ControlFieldType {
    /// The behavior is controlled by a boolean field.
    Boolean,
    /// The behavior is controlled by a free-form string field.
    FreeString,
}

/// How a step relates to a coordinate: unused, or used in one of these ways.
#[derive(Copy, Clone, Debug, PartialEq, Eq, Structural)]
pub enum Usage {
    /// Enabled through a template expression whose value cannot be analyzed.
    ConditionalOptIn,
    /// Explicitly enabled by the controlling input.
    DirectOptIn,
    /// Enabled because the action defaults to the behavior.
    DefaultActionBehaviour,
    /// Enabled by the mere presence of the `uses:` clause.
    Always,
}

/// The input that controls a configurable action's behavior.
#[derive(Debug, Clone)]
pub struct Control {
    pub toggle: Toggle,
    pub field_name: String,
    pub field_type: ControlFieldType,
}

impl Control {
    pub fn new(toggle: Toggle, field_name: &str, field_type: ControlFieldType) -> (r: Control)
        ensures
            r.toggle == toggle,
            r.field_name@ == field_name@,
            r.field_type == field_type,
    {
        Control { toggle, field_name: field_name.to_owned(), field_type }
    }
}

/// A `uses:` coordinate: an action reference, possibly qualified by a
/// controlling input.
#[derive(Debug, Clone)]
pub enum UsesCoordinate {
    Configurable { uses: Uses, control: Control, enabled_by_default: bool },
    NotConfigurable(Uses),
}

/// The "declared" usage a configured value expresses, before the coordinate's
/// toggle is applied: an explicit boolean opts in or out, a template
/// expression is conditional, and any other text opts in only for free-form
/// string fields.
pub open spec fn declared_usage_spec(text: Seq<char>, ft: ControlFieldType) -> Option<Usage> {
    if text == "true"@ && ft is Boolean {
        Some(Usage::DirectOptIn)
    } else if text == "false"@ && ft is Boolean {
        None
    } else if curly_form(text) {
        Some(Usage::ConditionalOptIn)
    } else if ft is FreeString {
        Some(Usage::DirectOptIn)
    } else {
        None
    }
}

/// Whether the split `uses:` parts `(owner, repo, subpath)` name the same
/// action as `template`, ignoring ASCII case; a template without a subpath
/// matches any subpath.
pub open spec fn parts_match_template(
    owner: Seq<char>,
    repo: Seq<char>,
    subpath: Option<Seq<char>>,
    template: Uses,
) -> bool {
    &&& lower_seq(owner) == lower_seq(template.owner@)
    &&& lower_seq(repo) == lower_seq(template.repo@)
    &&& (match template.subpath {
        Some(t) => match subpath {
            Some(s) => lower_seq(s) == lower_seq(t@),
            None => false,
        },
        None => true,
    })
}

/// The usage a step expresses relative to a coordinate.
pub open spec fn usage_spec(c: UsesCoordinate, body: StepBody) -> Option<Usage> {
    match body {
        StepBody::Run { .. } => None,
        StepBody::Uses { uses: utext, with } => {
            if matches_at(utext@, "docker://"@, 0) {
                None
            } else {
                match uses_split_spec(utext@) {
                    None => None,
                    Some(parts) => {
                        let template = match c {
                            UsesCoordinate::Configurable { uses, .. } => uses,
                            UsesCoordinate::NotConfigurable(uses) => uses,
                        };
                        if !parts_match_template(parts.0, parts.1, parts.2, template) {
                            None
                        } else {
                            match c {
                                UsesCoordinate::NotConfigurable(_) => Some(Usage::Always),
                                UsesCoordinate::Configurable {
                                    uses: _,
                                    control,
                                    enabled_by_default,
                                } => match env_lookup(with.entries@, control.field_name@) {
                                    Some(v) => match declared_usage_spec(
                                        v.text_spec(),
                                        control.field_type,
                                    ) {
                                        Some(Usage::DirectOptIn) => match control.toggle {
                                            Toggle::OptIn => Some(Usage::DirectOptIn),
                                            Toggle::OptOut => None,
                                        },
                                        Some(u) => Some(u),
                                        None => None,
                                    },
                                    None => if enabled_by_default {
                                        Some(Usage::DefaultActionBehaviour)
                                    } else {
                                        None
                                    },
                                },
                            }
                        }
                    },
                }
            }
        },
    }
}

impl UsesCoordinate {
    /// The action reference this coordinate is about.
    pub fn uses(&self) -> (r: &Uses)
        ensures
            match self {
                UsesCoordinate::Configurable { uses, .. } => r == uses,
                UsesCoordinate::NotConfigurable(uses) => r == uses,
            },
    {
        match self {
            UsesCoordinate::Configurable { uses, .. } => uses,
            UsesCoordinate::NotConfigurable(uses) => uses,
        }
    }

    /// The "declared" usage of a configured value, modulo the expected field
    /// type; the coordinate's toggle may later invert its sense.
    pub fn declared_usage(&self, value: &EnvValue, field_type: &ControlFieldType) -> (r: Option<
        Usage,
    >)
        ensures
            r == declared_usage_spec(value.text_spec(), *field_type),
    {
        let text = value.to_text();
        match field_type {
            ControlFieldType::Boolean => {
                if str_eq(text.as_str(), "true") {
                    return Some(Usage::DirectOptIn);
                }
                if str_eq(text.as_str(), "false") {
                    return None;
                }
            },
            ControlFieldType::FreeString => {
                proof {
                    reveal_strlit("true");
                    reveal_strlit("false");
                }
            },
        }
        match ExplicitExpr::from_curly(text.as_str()) {
            Some(_) => Some(Usage::ConditionalOptIn),
            None => match field_type {
                ControlFieldType::FreeString => Some(Usage::DirectOptIn),
                ControlFieldType::Boolean => None,
            },
        }
    }

    /// The semantic usage of `step` relative to this coordinate: `None` when
    /// the step does not engage it, otherwise how it is engaged.
    pub fn usage(&self, step: &Step) -> (r: Option<Usage>)
        ensures
            r == usage_spec(*self, step.body),
    {
        let (utext, with) = match &step.body {
            StepBody::Run { .. } => {
                return None;
            },
            StepBody::Uses { uses, with } => (uses, with),
        };
        let uses = match Uses::from_step(utext.as_str()) {
            None => {
                proof {
                    reveal_strlit("docker://");
                }
                return None;
            },
            Some(u) => u,
        };
        proof {
            reveal_strlit("docker://");
        }
        let template = self.uses();
        if !uses.matches_template(template) {
            return None;
        }
        match self {
            UsesCoordinate::NotConfigurable(_) => Some(Usage::Always),
            UsesCoordinate::Configurable { uses: _, control, enabled_by_default } => {
                match with.get(control.field_name.as_str()) {
                    Some(v) => {
                        let declared = self.declared_usage(v, &control.field_type);
                        match declared {
                            Some(Usage::DirectOptIn) => match control.toggle {
                                Toggle::OptIn => Some(Usage::DirectOptIn),
                                Toggle::OptOut => None,
                            },
                            Some(u) => Some(u),
                            None => None,
                        }
                    },
                    None => {
                        if *enabled_by_default {
                            Some(Usage::DefaultActionBehaviour)
                        } else {
                            None
                        }
                    },
                }
            },
        }
    }
}

} // verus!
