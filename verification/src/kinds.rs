//! The closed vocabularies of the game: phases, structures, research,
//! districts, undead, jobs, resources and suspicion stages.

use vstd::prelude::*;
use crate::text_util::str_equal;

verus! {

#[derive(Debug, Clone, Copy, PartialEq, Eq, Structural)]
pub enum GamePhase {
    MainMenu,
    Playing,
    Paused,
    Victory,
    Error,
}

#[derive(Debug, Clone, Copy, PartialEq, Eq, Structural)]
pub enum PlotStatus {
    Locked,
    Ready,
    Digging,
    Dug,
}

#[derive(Debug, Clone, Copy, PartialEq, Eq, Structural)]
pub enum BuildingKind {
    WorkShed,
    GraveLantern,
    OssuaryKiln,
}

pub open spec fn building_id(kind: BuildingKind) -> Seq<char> {
    match kind {
        BuildingKind::WorkShed => "work_shed"@,
        BuildingKind::GraveLantern => "grave_lantern"@,
        BuildingKind::OssuaryKiln => "ossuary_kiln"@,
    }
}

/// Footprint width and height of each structure, in tiles.
pub open spec fn building_dimensions(kind: BuildingKind) -> (i32, i32) {
    match kind {
        BuildingKind::WorkShed => (2, 2),
        BuildingKind::GraveLantern => (1, 1),
        BuildingKind::OssuaryKiln => (2, 1),
    }
}

impl BuildingKind {
    pub fn id(self) -> (id: &'static str)
        ensures
            id@ == building_id(self),
    {
        match self {
            BuildingKind::WorkShed => "work_shed",
            BuildingKind::GraveLantern => "grave_lantern",
            BuildingKind::OssuaryKiln => "ossuary_kiln",
        }
    }

    pub fn dimensions(self) -> (size: (i32, i32))
        ensures
            size == building_dimensions(self),
    {
        match self {
            BuildingKind::WorkShed => (2, 2),
            BuildingKind::GraveLantern => (1, 1),
            BuildingKind::OssuaryKiln => (2, 1),
        }
    }
}

#[derive(Debug, Clone, Copy, PartialEq, Eq, Structural)]
pub enum Technology {
    BindingRoutines,
    Gravecraft,
    OssuaryLogistics,
    DomainStewardship,
}

pub open spec fn technology_id(t: Technology) -> Seq<char> {
    match t {
        Technology::BindingRoutines => "binding_routines"@,
        Technology::Gravecraft => "gravecraft"@,
        Technology::OssuaryLogistics => "ossuary_logistics"@,
        Technology::DomainStewardship => "domain_stewardship"@,
    }
}

pub open spec fn technology_label(t: Technology) -> Seq<char> {
    match t {
        Technology::BindingRoutines => "Binding Routines"@,
        Technology::Gravecraft => "Gravecraft"@,
        Technology::OssuaryLogistics => "Ossuary Logistics"@,
        Technology::DomainStewardship => "Domain Stewardship"@,
    }
}

/// The research chain: each study needs the one before it.
pub open spec fn technology_prerequisite(t: Technology) -> Option<Technology> {
    match t {
        Technology::BindingRoutines => None,
        Technology::Gravecraft => Some(Technology::BindingRoutines),
        Technology::OssuaryLogistics => Some(Technology::Gravecraft),
        Technology::DomainStewardship => Some(Technology::OssuaryLogistics),
    }
}

/// Position of a study in the research chain.
pub open spec fn technology_depth(t: Technology) -> nat {
    match t {
        Technology::BindingRoutines => 0,
        Technology::Gravecraft => 1,
        Technology::OssuaryLogistics => 2,
        Technology::DomainStewardship => 3,
    }
}

impl Technology {
    pub fn id(self) -> (id: &'static str)
        ensures
            id@ == technology_id(self),
    {
        match self {
            Technology::BindingRoutines => "binding_routines",
            Technology::Gravecraft => "gravecraft",
            Technology::OssuaryLogistics => "ossuary_logistics",
            Technology::DomainStewardship => "domain_stewardship",
        }
    }

    pub fn label(self) -> (label: &'static str)
        ensures
            label@ == technology_label(self),
    {
        match self {
            Technology::BindingRoutines => "Binding Routines",
            Technology::Gravecraft => "Gravecraft",
            Technology::OssuaryLogistics => "Ossuary Logistics",
            Technology::DomainStewardship => "Domain Stewardship",
        }
    }

    pub fn prerequisite(self) -> (pre: Option<Technology>)
        ensures
            pre == technology_prerequisite(self),
    {
        match self {
            Technology::BindingRoutines => None,
            Technology::Gravecraft => Some(Technology::BindingRoutines),
            Technology::OssuaryLogistics => Some(Technology::Gravecraft),
            Technology::DomainStewardship => Some(Technology::OssuaryLogistics),
        }
    }
}

/// The research chain has no cycle: a prerequisite always sits one step
/// earlier in the chain, so every study is reachable from Binding Routines.
pub proof fn lemma_prerequisite_is_earlier(t: Technology)
    ensures
        technology_prerequisite(t) is None <==> t == Technology::BindingRoutines,
        technology_prerequisite(t) matches Some(p) ==> technology_depth(p) + 1
            == technology_depth(t),
{
}

#[derive(Debug, Clone, Copy, PartialEq, Eq, Structural)]
pub enum ZoneKind {
    Work,
    Storage,
    Patrol,
}

pub open spec fn zone_label(kind: ZoneKind) -> Seq<char> {
    match kind {
        ZoneKind::Work => "Work"@,
        ZoneKind::Storage => "Storage"@,
        ZoneKind::Patrol => "Patrol"@,
    }
}

impl ZoneKind {
    pub fn label(self) -> (label: &'static str)
        ensures
            label@ == zone_label(self),
    {
        match self {
            ZoneKind::Work => "Work",
            ZoneKind::Storage => "Storage",
            ZoneKind::Patrol => "Patrol",
        }
    }
}

#[derive(Debug, Clone, Copy, PartialEq, Eq, Structural)]
pub enum UndeadKind {
    Skeleton,
    BruteSkeleton,
}

pub open spec fn undead_id(kind: UndeadKind) -> Seq<char> {
    match kind {
        UndeadKind::Skeleton => "skeleton"@,
        UndeadKind::BruteSkeleton => "brute_skeleton"@,
    }
}

impl UndeadKind {
    pub fn id(self) -> (id: &'static str)
        ensures
            id@ == undead_id(self),
    {
        match self {
            UndeadKind::Skeleton => "skeleton",
            UndeadKind::BruteSkeleton => "brute_skeleton",
        }
    }
}

#[derive(Debug, Clone, Copy, PartialEq, Eq, Structural)]
pub enum JobKind {
    Dig,
    Haul,
    Guard,
    Wood,
    Build,
    Refine,
}

pub open spec fn job_id(job: JobKind) -> Seq<char> {
    match job {
        JobKind::Dig => "dig"@,
        JobKind::Haul => "haul"@,
        JobKind::Guard => "guard"@,
        JobKind::Wood => "wood"@,
        JobKind::Build => "build"@,
        JobKind::Refine => "refine"@,
    }
}

pub open spec fn job_label(job: JobKind) -> Seq<char> {
    match job {
        JobKind::Dig => "Dig"@,
        JobKind::Haul => "Haul"@,
        JobKind::Guard => "Guard"@,
        JobKind::Wood => "Wood"@,
        JobKind::Build => "Build"@,
        JobKind::Refine => "Refine"@,
    }
}

impl JobKind {
    pub fn id(self) -> (id: &'static str)
        ensures
            id@ == job_id(self),
    {
        match self {
            JobKind::Dig => "dig",
            JobKind::Haul => "haul",
            JobKind::Guard => "guard",
            JobKind::Wood => "wood",
            JobKind::Build => "build",
            JobKind::Refine => "refine",
        }
    }

    pub fn label(self) -> (label: &'static str)
        ensures
            label@ == job_label(self),
    {
        match self {
            JobKind::Dig => "Dig",
            JobKind::Haul => "Haul",
            JobKind::Guard => "Guard",
            JobKind::Wood => "Wood",
            JobKind::Build => "Build",
            JobKind::Refine => "Refine",
        }
    }
}

#[derive(Debug, Clone, Copy, PartialEq, Eq, Structural)]
pub enum WorkerStatus {
    Idle,
    Walking,
    Working,
    Carrying,
    Hiding,
}

#[derive(Debug, Clone, Copy, PartialEq, Eq, Structural)]
pub enum ResourceKind {
    Bones,
    Wood,
}

#[derive(Debug, Clone, Copy, PartialEq, Eq, Structural)]
pub enum CorpseQuality {
    Poor,
    Sound,
    Notable,
}

pub open spec fn corpse_quality_label(q: CorpseQuality) -> Seq<char> {
    match q {
        CorpseQuality::Poor => "Poor"@,
        CorpseQuality::Sound => "Sound"@,
        CorpseQuality::Notable => "Notable"@,
    }
}

impl CorpseQuality {
    pub fn label(self) -> (label: &'static str)
        ensures
            label@ == corpse_quality_label(self),
    {
        match self {
            CorpseQuality::Poor => "Poor",
            CorpseQuality::Sound => "Sound",
            CorpseQuality::Notable => "Notable",
        }
    }
}

#[derive(Debug, Clone, Copy, PartialEq, Eq, Structural, Hash)]
pub enum ProductionRecipeKind {
    WardCharge,
    HushAsh,
}

impl Default for ProductionRecipeKind {
    fn default() -> (kind: ProductionRecipeKind)
        ensures
            kind == ProductionRecipeKind::WardCharge,
    {
        ProductionRecipeKind::WardCharge
    }
}

pub open spec fn recipe_label(kind: ProductionRecipeKind) -> Seq<char> {
    match kind {
        ProductionRecipeKind::WardCharge => "Ward Charge"@,
        ProductionRecipeKind::HushAsh => "Hush Ash"@,
    }
}

pub open spec fn recipe_short_label(kind: ProductionRecipeKind) -> Seq<char> {
    match kind {
        ProductionRecipeKind::WardCharge => "Ward"@,
        ProductionRecipeKind::HushAsh => "Hush"@,
    }
}

impl ProductionRecipeKind {
    pub fn label(self) -> (label: &'static str)
        ensures
            label@ == recipe_label(self),
    {
        match self {
            ProductionRecipeKind::WardCharge => "Ward Charge",
            ProductionRecipeKind::HushAsh => "Hush Ash",
        }
    }

    pub fn short_label(self) -> (label: &'static str)
        ensures
            label@ == recipe_short_label(self),
    {
        match self {
            ProductionRecipeKind::WardCharge => "Ward",
            ProductionRecipeKind::HushAsh => "Hush",
        }
    }
}

#[derive(Debug, Clone, Copy, PartialEq, Eq, Structural)]
pub enum SuspicionStage {
    Calm,
    Rumour,
    Questioning,
    Investigation,
}

/// Severity order of the suspicion stages.
pub open spec fn stage_rank_spec(stage: SuspicionStage) -> u8 {
    match stage {
        SuspicionStage::Calm => 0,
        SuspicionStage::Rumour => 1,
        SuspicionStage::Questioning => 2,
        SuspicionStage::Investigation => 3,
    }
}

pub fn stage_rank(stage: SuspicionStage) -> (rank: u8)
    ensures
        rank == stage_rank_spec(stage),
{
    match stage {
        SuspicionStage::Calm => 0,
        SuspicionStage::Rumour => 1,
        SuspicionStage::Questioning => 2,
        SuspicionStage::Investigation => 3,
    }
}

/// The stage order is strict: distinct stages never share a rank.
pub proof fn lemma_stage_rank_injective(a: SuspicionStage, b: SuspicionStage)
    ensures
        stage_rank_spec(a) == stage_rank_spec(b) <==> a == b,
{
}

/// The undead kind named by an authored id; unknown ids mean a plain skeleton.
pub open spec fn undead_kind_for(id: Seq<char>) -> UndeadKind {
    if id == "brute_skeleton"@ {
        UndeadKind::BruteSkeleton
    } else {
        UndeadKind::Skeleton
    }
}

pub fn undead_kind_from_id(id: &str) -> (kind: UndeadKind)
    ensures
        kind == undead_kind_for(id@),
{
    if str_equal(id, "brute_skeleton") {
        UndeadKind::BruteSkeleton
    } else {
        UndeadKind::Skeleton
    }
}

/// The job named by an authored id; unknown ids mean digging.
pub open spec fn job_kind_for(id: Seq<char>) -> JobKind {
    if id == "haul"@ {
        JobKind::Haul
    } else if id == "guard"@ {
        JobKind::Guard
    } else if id == "wood"@ {
        JobKind::Wood
    } else if id == "build"@ {
        JobKind::Build
    } else if id == "refine"@ {
        JobKind::Refine
    } else {
        JobKind::Dig
    }
}

pub fn job_kind_from_id(id: &str) -> (job: JobKind)
    ensures
        job == job_kind_for(id@),
{
    if str_equal(id, "haul") {
        JobKind::Haul
    } else if str_equal(id, "guard") {
        JobKind::Guard
    } else if str_equal(id, "wood") {
        JobKind::Wood
    } else if str_equal(id, "build") {
        JobKind::Build
    } else if str_equal(id, "refine") {
        JobKind::Refine
    } else {
        JobKind::Dig
    }
}

/// Reading a job's id back gives the same job.
pub proof fn lemma_job_id_round_trip(job: JobKind)
    ensures
        job_kind_for(job_id(job)) == job,
{
    reveal_strlit("dig");
    reveal_strlit("haul");
    reveal_strlit("guard");
    reveal_strlit("wood");
    reveal_strlit("build");
    reveal_strlit("refine");
    assert("dig"@[0] == 'd');
    assert("haul"@[0] == 'h');
    assert("guard"@[0] == 'g');
    assert("wood"@[0] == 'w');
    assert("build"@[0] == 'b');
    assert("refine"@[0] == 'r');
}

/// Reading an undead kind's id back gives the same kind.
pub proof fn lemma_undead_id_round_trip(kind: UndeadKind)
    ensures
        undead_kind_for(undead_id(kind)) == kind,
{
    reveal_strlit("skeleton");
    reveal_strlit("brute_skeleton");
    assert("skeleton"@[0] == 's');
    assert("brute_skeleton"@[0] == 'b');
}

} // verus!
