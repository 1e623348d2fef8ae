//! Authored buildings: their costs, upgrade costs and kiln recipes, and the
//! checks that keep those numbers usable.

use vstd::prelude::*;
use crate::kinds::{building_id, BuildingKind, ProductionRecipeKind};
use crate::text_util::{push_str, str_equal};

verus! {

/// One kiln recipe: what a cycle consumes and how many charges it seals.
#[derive(Debug, Clone)]
pub struct ProductionRecipeDef {
    pub kind: ProductionRecipeKind,
    pub name: String,
    pub bones_cost: i32,
    pub wood_cost: i32,
    pub output_amount: i32,
    pub effect_text: String,
}

/// The recipes a production building offers.
#[derive(Debug, Clone)]
pub struct ProductionDef {
    pub recipes: Vec<ProductionRecipeDef>,
}

/// The whole-number part of an authored building.
#[derive(Debug, Clone)]
pub struct BuildingDef {
    pub id: String,
    pub name: String,
    pub bones_cost: i32,
    pub mana_cost: i32,
    pub wood_cost: i32,
    pub effect_text: String,
    pub upgrade_bones_cost: i32,
    pub upgrade_mana_cost: i32,
    pub upgrade_wood_cost: i32,
    pub upgrade_effect_text: String,
    pub production: Option<ProductionDef>,
}

/// Every authored building, looked up by id.
#[derive(Debug, Clone)]
pub struct BuildingCatalog {
    pub entries: Vec<BuildingDef>,
}

/// The first recipe of `kind`.
pub open spec fn recipe_for(recipes: Seq<ProductionRecipeDef>, kind: ProductionRecipeKind) -> Option<ProductionRecipeDef>
    decreases recipes.len(),
{
    if recipes.len() == 0 {
        None
    } else if recipes[0].kind == kind {
        Some(recipes[0])
    } else {
        recipe_for(recipes.skip(1), kind)
    }
}

/// The first building entry with id `id`.
pub open spec fn def_for(entries: Seq<BuildingDef>, id: Seq<char>) -> Option<BuildingDef>
    decreases entries.len(),
{
    if entries.len() == 0 {
        None
    } else if entries[0].id@ == id {
        Some(entries[0])
    } else {
        def_for(entries.skip(1), id)
    }
}

impl ProductionDef {
    pub fn recipe(&self, kind: ProductionRecipeKind) -> (recipe: Option<&ProductionRecipeDef>)
        ensures
            match recipe {
                Some(r) => recipe_for(self.recipes@, kind) == Some(*r),
                None => recipe_for(self.recipes@, kind) is None,
            },
    {
        let mut i: usize = 0;
        assert(self.recipes@.skip(0) == self.recipes@);
        while i < self.recipes.len()
            invariant
                i <= self.recipes@.len(),
                recipe_for(self.recipes@, kind) == recipe_for(self.recipes@.skip(i as int), kind),
            decreases self.recipes.len() - i,
        {
            let ghost rest = self.recipes@.skip(i as int);
            assert(rest[0] == self.recipes@[i as int]);
            assert(rest.skip(1) == self.recipes@.skip(i as int + 1));
            if self.recipes[i].kind == kind {
                return Some(&self.recipes[i]);
            }
            i = i + 1;
        }
        None
    }
}

impl BuildingCatalog {
    pub open spec fn def_of(self, kind: BuildingKind) -> Option<BuildingDef> {
        def_for(self.entries@, building_id(kind))
    }

    /// The entry with id `id`.
    pub fn get(&self, id: &str) -> (def: Option<&BuildingDef>)
        ensures
            match def {
                Some(d) => def_for(self.entries@, id@) == Some(*d),
                None => def_for(self.entries@, id@) is None,
            },
    {
        let mut i: usize = 0;
        assert(self.entries@.skip(0) == self.entries@);
        while i < self.entries.len()
            invariant
                i <= self.entries@.len(),
                def_for(self.entries@, id@) == def_for(self.entries@.skip(i as int), id@),
            decreases self.entries.len() - i,
        {
            let ghost rest = self.entries@.skip(i as int);
            assert(rest[0] == self.entries@[i as int]);
            assert(rest.skip(1) == self.entries@.skip(i as int + 1));
            if str_equal(self.entries[i].id.as_str(), id) {
                return Some(&self.entries[i]);
            }
            i = i + 1;
        }
        None
    }
}

/// No cost of the building or its upgrade is negative, and the upgrade
/// says what it does.
pub open spec fn building_numbers_ok(def: BuildingDef) -> bool {
    &&& def.bones_cost >= 0
    &&& def.mana_cost >= 0
    &&& def.wood_cost >= 0
    &&& def.upgrade_bones_cost >= 0
    &&& def.upgrade_mana_cost >= 0
    &&& def.upgrade_wood_cost >= 0
    &&& def.upgrade_effect_text@.len() > 0
}

pub open spec fn recipe_numbers_ok(recipe: ProductionRecipeDef) -> bool {
    &&& recipe.name@.len() > 0
    &&& recipe.bones_cost >= 0
    &&& recipe.wood_cost >= 0
    &&& recipe.output_amount > 0
}

/// No two recipes share a kind, and one of them seals ward charges.
pub open spec fn recipe_kinds_ok(recipes: Seq<ProductionRecipeDef>) -> bool {
    &&& forall|i: int, j: int|
        0 <= i < recipes.len() && 0 <= j < recipes.len() && i != j ==> (#[trigger] recipes[i]).kind
            != (#[trigger] recipes[j]).kind
    &&& exists|i: int| 0 <= i < recipes.len() && (#[trigger] recipes[i]).kind == ProductionRecipeKind::WardCharge
}

/// A building entry passes every whole-number check.
pub open spec fn building_def_valid(def: BuildingDef) -> bool {
    &&& building_numbers_ok(def)
    &&& match def.production {
        None => true,
        Some(production) => {
            &&& production.recipes@.len() > 0
            &&& forall|i: int| 0 <= i < production.recipes@.len() ==> recipe_numbers_ok(#[trigger] production.recipes@[i])
            &&& recipe_kinds_ok(production.recipes@)
        },
    }
}

pub open spec fn impossible_building_message(id: Seq<char>) -> Seq<char> {
    "buildings.json: impossible cost or time for '"@ + id + "'"@
}

pub open spec fn impossible_recipe_message(id: Seq<char>) -> Seq<char> {
    "buildings.json: impossible production recipe for '"@ + id + "'"@
}

pub open spec fn recipe_kinds_message(id: Seq<char>) -> Seq<char> {
    "buildings.json: production recipes for '"@ + id + "' need one unique ward_charge entry"@
}

fn quoted_message(prefix: &str, id: &str, suffix: &str) -> (message: String)
    ensures
        message@ == prefix@ + id@ + suffix@,
{
    let mut message = String::new();
    push_str(&mut message, prefix);
    push_str(&mut message, id);
    push_str(&mut message, suffix);
    assert(Seq::<char>::empty() + prefix@ == prefix@);
    message
}

fn recipe_kinds_unique(recipes: &Vec<ProductionRecipeDef>) -> (ok: bool)
    ensures
        ok == recipe_kinds_ok(recipes@),
{
    let mut i: usize = 0;
    let mut ward = false;
    while i < recipes.len()
        invariant
            i <= recipes@.len(),
            forall|a: int, b: int|
                0 <= a < i && 0 <= b < recipes@.len() && a != b ==> (#[trigger] recipes@[a]).kind
                    != (#[trigger] recipes@[b]).kind,
            ward == exists|a: int| 0 <= a < i && (#[trigger] recipes@[a]).kind == ProductionRecipeKind::WardCharge,
        decreases recipes.len() - i,
    {
        let mut j: usize = 0;
        while j < recipes.len()
            invariant
                i < recipes@.len(),
                j <= recipes@.len(),
                forall|b: int| 0 <= b < j && b != i ==> recipes@[i as int].kind != (#[trigger] recipes@[b]).kind,
            decreases recipes.len() - j,
        {
            if j != i && recipes[i].kind == recipes[j].kind {
                assert(!recipe_kinds_ok(recipes@)) by {
                    assert(recipes@[i as int].kind == recipes@[j as int].kind);
                }
                return false;
            }
            j = j + 1;
        }
        if recipes[i].kind == ProductionRecipeKind::WardCharge {
            ward = true;
        }
        i = i + 1;
    }
    ward
}

/// Checks the whole-number part of building `id`. `timings_valid` and
/// `recipe_timings_valid` carry the verdict on the building's and its
/// recipes' timings and multipliers, which fail with the same messages.
pub fn validate_building(id: &str, def: &BuildingDef, timings_valid: bool, recipe_timings_valid: bool) -> (result: Result<
    (),
    String,
>)
    ensures
        !(timings_valid && building_numbers_ok(*def)) ==> (result matches Err(m) && m@
            == impossible_building_message(id@)),
        timings_valid && building_numbers_ok(*def) ==> match def.production {
            None => result is Ok,
            Some(production) => {
                if !(production.recipes@.len() > 0 && recipe_timings_valid && forall|i: int|
                    0 <= i < production.recipes@.len() ==> recipe_numbers_ok(#[trigger] production.recipes@[i])) {
                    result matches Err(m) && m@ == impossible_recipe_message(id@)
                } else if !recipe_kinds_ok(production.recipes@) {
                    result matches Err(m) && m@ == recipe_kinds_message(id@)
                } else {
                    result is Ok
                }
            },
        },
        result is Ok <==> (timings_valid && recipe_timings_valid || def.production is None) && timings_valid
            && building_def_valid(*def),
{
    let invalid = def.bones_cost < 0 || def.mana_cost < 0 || def.wood_cost < 0 || def.upgrade_bones_cost < 0
        || def.upgrade_mana_cost < 0 || def.upgrade_wood_cost < 0 || !timings_valid
        || def.upgrade_effect_text.unicode_len() == 0;
    if invalid {
        return Err(quoted_message("buildings.json: impossible cost or time for '", id, "'"));
    }
    match &def.production {
        None => Ok(()),
        Some(production) => {
            let recipes = &production.recipes;
            let mut bad = recipes.len() == 0 || !recipe_timings_valid;
            let mut i: usize = 0;
            while i < recipes.len()
                invariant
                    i <= recipes@.len(),
                    bad == (recipes@.len() == 0 || !recipe_timings_valid || exists|k: int|
                        0 <= k < i && !recipe_numbers_ok(#[trigger] recipes@[k])),
                decreases recipes.len() - i,
            {
                let recipe = &recipes[i];
                if recipe.name.unicode_len() == 0 || recipe.bones_cost < 0 || recipe.wood_cost < 0
                    || recipe.output_amount <= 0 {
                    assert(!recipe_numbers_ok(recipes@[i as int]));
                    bad = true;
                }
                i = i + 1;
            }
            if bad {
                return Err(quoted_message("buildings.json: impossible production recipe for '", id, "'"));
            }
            if !recipe_kinds_unique(recipes) {
                return Err(
                    quoted_message("buildings.json: production recipes for '", id, "' need one unique ward_charge entry"),
                );
            }
            Ok(())
        },
    }
}

} // verus!
