//! The naming resolver: a pure concatenation of a configured (or default)
//! prefix, the field name, and a configured (or default) suffix, for each of
//! the three operation kinds.

use vstd::prelude::*;

use crate::schema::NamingConfig;

verus! {

pub open spec fn part_or(part: Option<String>, default: Seq<char>) -> Seq<char> {
    match part {
        Some(s) => s@,
        None => default,
    }
}

/// A suffix defaults to the empty string.
pub open spec fn suffix_or_empty(part: Option<String>) -> Seq<char> {
    match part {
        Some(s) => s@,
        None => Seq::empty(),
    }
}

/// The name of the notify operation of `field`: `updated_<field>` by default.
pub open spec fn spec_notify_name(cfg: NamingConfig, field: Seq<char>) -> Seq<char> {
    part_or(cfg.notify_prefix, "updated_"@) + field + suffix_or_empty(cfg.notify_suffix)
}

/// The name of the trigger operation of a computed `field`: `update_<field>`
/// by default.
pub open spec fn spec_trigger_name(cfg: NamingConfig, field: Seq<char>) -> Seq<char> {
    part_or(cfg.trigger_prefix, "update_"@) + field + suffix_or_empty(cfg.trigger_suffix)
}

/// The name of the setter operation of a stored `field`: `update_<field>` by
/// default. Trigger and setter share their default prefix on purpose: a field
/// is never both stored and computed, so the two never name the same field.
pub open spec fn spec_setter_name(cfg: NamingConfig, field: Seq<char>) -> Seq<char> {
    part_or(cfg.setter_prefix, "update_"@) + field + suffix_or_empty(cfg.setter_suffix)
}

/// Concatenates prefix (or its default), the field name, and suffix.
fn make_name(
    prefix: &Option<String>,
    default_prefix: &str,
    field: &String,
    suffix: &Option<String>,
) -> (r: String)
    ensures
        r@ == part_or(*prefix, default_prefix@) + field@ + suffix_or_empty(*suffix),
{
    let mut out: String = match prefix {
        Some(p) => p.clone(),
        None => default_prefix.to_owned(),
    };
    out.append(field.as_str());
    match suffix {
        Some(s) => {
            out.append(s.as_str());
        },
        None => {
            proof {
                assert(out@ + Seq::<char>::empty() =~= out@);
            }
        },
    }
    out
}

pub fn notify_ident(cfg: &NamingConfig, field: &String) -> (r: String)
    ensures
        r@ == spec_notify_name(*cfg, field@),
{
    make_name(&cfg.notify_prefix, "updated_", field, &cfg.notify_suffix)
}

pub fn trigger_ident(cfg: &NamingConfig, field: &String) -> (r: String)
    ensures
        r@ == spec_trigger_name(*cfg, field@),
{
    make_name(&cfg.trigger_prefix, "update_", field, &cfg.trigger_suffix)
}

pub fn setter_ident(cfg: &NamingConfig, field: &String) -> (r: String)
    ensures
        r@ == spec_setter_name(*cfg, field@),
{
    make_name(&cfg.setter_prefix, "update_", field, &cfg.setter_suffix)
}

} // verus!
