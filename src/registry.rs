use vstd::prelude::*;
use crate::effect::EffectIterator;

verus! {

/// The names of the effects that every build offers, in order.
pub open spec fn effect_names() -> Seq<Seq<char>> {
    seq!["Breathe"@, "Rainbow"@, "SnowSparkle"@]
}

/// The names of the effects that every build offers.
pub fn list() -> (names: Vec<String>)
    ensures
        names@.len() == effect_names().len(),
        forall|i: int| 0 <= i < names@.len() ==> #[trigger] names@[i]@ == effect_names()[i],
{
    let mut names: Vec<String> = Vec::new();
    names.push("Breathe".to_owned());
    names.push("Rainbow".to_owned());
    names.push("SnowSparkle".to_owned());
    names
}

/// The effect of the given name with its default settings. No effect is
/// registered under a name, so this is always `None`.
pub fn get_default_effect(count: usize, name: &str) -> (r: Option<Box<dyn EffectIterator>>)
    ensures
        r.is_none(),
{
    None
}

/// Every registered effect with its default settings: none are registered.
pub fn get_all_default_effects(count: usize) -> (r: Vec<Box<dyn EffectIterator>>)
    ensures
        r@.len() == 0,
{
    Vec::new()
}

} // verus!
