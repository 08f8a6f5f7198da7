//! The settings carrier and the settings emission table.
//!
//! The carrier is a typed tree for a custom-game-settings block: settings
//! are carried and emitted, never interpreted. The table lists the exact
//! settings key paths Wright knows, their Workshop names and value kinds, and
//! the localized names of modes, maps, heroes, teams and enum members.

use vstd::prelude::*;

use vstd::string::StringExecFns;

use crate::hir::Span;
use crate::text::str_eq;

verus! {

broadcast use vstd::string::group_string_axioms;

/// A settings block: `settings { ... }` with its typed children.
#[derive(Debug)]
pub struct Settings {
    pub span: Option<Span>,
    pub children: Vec<SettingsNode>,
}

/// One member of a settings group. A number is held by the bit pattern of
/// its float value (`f64::to_bits`).
#[derive(Debug)]
pub enum SettingsNode {
    Group { name: String, children: Vec<SettingsNode>, span: Option<Span> },
    Number { name: String, value_bits: u64, span: Option<Span> },
    Bool { name: String, value: bool, span: Option<Span> },
    String { name: String, value: String, span: Option<Span> },
    List { name: String, elements: Vec<SettingsListElement>, span: Option<Span> },
}

/// One element of a settings list.
#[derive(Debug, Clone)]
pub struct SettingsListElement {
    pub value: String,
    pub span: Option<Span>,
}

/// The source span of a settings node.
pub open spec fn settings_node_span(n: SettingsNode) -> Option<Span> {
    match n {
        SettingsNode::Group { span, .. } => span,
        SettingsNode::Number { span, .. } => span,
        SettingsNode::Bool { span, .. } => span,
        SettingsNode::String { span, .. } => span,
        SettingsNode::List { span, .. } => span,
    }
}

/// The key name of a settings node.
pub open spec fn settings_node_name(n: SettingsNode) -> Seq<char> {
    match n {
        SettingsNode::Group { name, .. } => name@,
        SettingsNode::Number { name, .. } => name@,
        SettingsNode::Bool { name, .. } => name@,
        SettingsNode::String { name, .. } => name@,
        SettingsNode::List { name, .. } => name@,
    }
}

impl SettingsNode {
    /// The source span of this node, if any.
    pub fn span(&self) -> (r: Option<Span>)
        ensures
            r == settings_node_span(*self),
    {
        match self {
            SettingsNode::Group { span, .. } => *span,
            SettingsNode::Number { span, .. } => *span,
            SettingsNode::Bool { span, .. } => *span,
            SettingsNode::String { span, .. } => *span,
            SettingsNode::List { span, .. } => *span,
        }
    }

    /// The key name of this node.
    pub fn name(&self) -> (r: &str)
        ensures
            r@ == settings_node_name(*self),
    {
        match self {
            SettingsNode::Group { name, .. } => name.as_str(),
            SettingsNode::Number { name, .. } => name.as_str(),
            SettingsNode::Bool { name, .. } => name.as_str(),
            SettingsNode::String { name, .. } => name.as_str(),
            SettingsNode::List { name, .. } => name.as_str(),
        }
    }
}

/// A leaf key kind: how a settings leaf renders and validates.
#[derive(Debug, Clone, Copy, PartialEq, Eq)]
pub enum KeyKind {
    /// A quoted string.
    String,
    /// A boolean rendered `On`/`Off`.
    Bool,
    /// A plain number.
    Number,
    /// A number rendered with a `%` suffix.
    Percent,
    /// A string-valued enumeration with a per-domain member map.
    Enum(&'static str),
    /// A list of map names.
    ListMap,
    /// A list of hero names.
    ListHero,
}

/// One segment of an exact settings path.
#[derive(Debug, Clone, Copy)]
pub enum PathPart<'a> {
    /// A literal key.
    Part(&'a str),
    /// Any team slot, rendered through [`team_name`].
    Team,
    /// Any hero-config slot, rendered through [`hero_name`].
    Hero,
}

/// One table entry: an exact key path, its workshop name, and its kind.
#[derive(Debug, Clone)]
pub struct TableEntry {
    pub path: Vec<PathPart<'static>>,
    pub workshop_name: &'static str,
    pub kind: KeyKind,
}

/// A slot name mapping (key to localized workshop name).
#[derive(Debug, Clone, Copy)]
pub struct NameMap {
    pub key: &'static str,
    pub name: &'static str,
}

/// An enum domain member and its localized workshop name.
#[derive(Debug, Clone, Copy)]
pub struct EnumMember {
    pub domain: &'static str,
    pub member: &'static str,
    pub name: &'static str,
}

/// A path segment as the contracts see it.
pub enum PartSpec {
    Part(Seq<char>),
    Team,
    Hero,
}

/// A key kind as the contracts see it.
pub enum KindSpec {
    String,
    Bool,
    Number,
    Percent,
    Enum(Seq<char>),
    ListMap,
    ListHero,
}

pub open spec fn part_spec(p: PathPart) -> PartSpec {
    match p {
        PathPart::Part(s) => PartSpec::Part(s@),
        PathPart::Team => PartSpec::Team,
        PathPart::Hero => PartSpec::Hero,
    }
}

pub open spec fn kind_spec(k: KeyKind) -> KindSpec {
    match k {
        KeyKind::String => KindSpec::String,
        KeyKind::Bool => KindSpec::Bool,
        KeyKind::Number => KindSpec::Number,
        KeyKind::Percent => KindSpec::Percent,
        KeyKind::Enum(d) => KindSpec::Enum(d@),
        KeyKind::ListMap => KindSpec::ListMap,
        KeyKind::ListHero => KindSpec::ListHero,
    }
}

pub open spec fn path_spec(path: Seq<PathPart>) -> Seq<PartSpec> {
    path.map_values(|p: PathPart| part_spec(p))
}

/// A table entry as the contracts see it: path, workshop name, kind.
pub open spec fn entry_spec(e: TableEntry) -> (Seq<PartSpec>, Seq<char>, KindSpec) {
    (path_spec(e.path@), e.workshop_name@, kind_spec(e.kind))
}

/// The fixture-evidenced settings surface, in table order.
pub open spec fn settings_table() -> Seq<(Seq<PartSpec>, Seq<char>, KindSpec)> {
    seq![
        (seq![PartSpec::Part("main"@), PartSpec::Part("description"@)], "Description"@, KindSpec::String),
        (seq![PartSpec::Part("main"@), PartSpec::Part("modeName"@)], "Mode Name"@, KindSpec::String),
        (seq![PartSpec::Part("lobby"@), PartSpec::Part("ffaSlots"@)], "Max FFA Players"@, KindSpec::Number),
        (seq![PartSpec::Part("gamemodes"@), PartSpec::Part("assault"@), PartSpec::Part("enabled"@)], "enabled"@, KindSpec::Bool),
        (seq![PartSpec::Part("gamemodes"@), PartSpec::Part("control"@), PartSpec::Part("enabled"@)], "enabled"@, KindSpec::Bool),
        (seq![PartSpec::Part("gamemodes"@), PartSpec::Part("escort"@), PartSpec::Part("enabled"@)], "enabled"@, KindSpec::Bool),
        (seq![PartSpec::Part("gamemodes"@), PartSpec::Part("hybrid"@), PartSpec::Part("enabled"@)], "enabled"@, KindSpec::Bool),
        (seq![PartSpec::Part("gamemodes"@), PartSpec::Part("assault"@), PartSpec::Part("enabledMaps"@)], "enabled maps"@, KindSpec::ListMap),
        (seq![PartSpec::Part("gamemodes"@), PartSpec::Part("control"@), PartSpec::Part("enabledMaps"@)], "enabled maps"@, KindSpec::ListMap),
        (seq![PartSpec::Part("gamemodes"@), PartSpec::Part("escort"@), PartSpec::Part("enabledMaps"@)], "enabled maps"@, KindSpec::ListMap),
        (seq![PartSpec::Part("gamemodes"@), PartSpec::Part("hybrid"@), PartSpec::Part("enabledMaps"@)], "enabled maps"@, KindSpec::ListMap),
        (seq![PartSpec::Part("gamemodes"@), PartSpec::Part("skirmish"@), PartSpec::Part("enabledMaps"@)], "enabled maps"@, KindSpec::ListMap),
        (seq![PartSpec::Part("gamemodes"@), PartSpec::Part("ffa"@), PartSpec::Part("enabledMaps"@)], "enabled maps"@, KindSpec::ListMap),
        (seq![PartSpec::Part("gamemodes"@), PartSpec::Part("assault"@), PartSpec::Part("roleLimit"@)], "Limit Roles"@, KindSpec::Enum("roleLimit"@)),
        (seq![PartSpec::Part("gamemodes"@), PartSpec::Part("control"@), PartSpec::Part("roleLimit"@)], "Limit Roles"@, KindSpec::Enum("roleLimit"@)),
        (seq![PartSpec::Part("gamemodes"@), PartSpec::Part("escort"@), PartSpec::Part("roleLimit"@)], "Limit Roles"@, KindSpec::Enum("roleLimit"@)),
        (seq![PartSpec::Part("gamemodes"@), PartSpec::Part("hybrid"@), PartSpec::Part("roleLimit"@)], "Limit Roles"@, KindSpec::Enum("roleLimit"@)),
        (seq![PartSpec::Part("gamemodes"@), PartSpec::Part("assault"@), PartSpec::Part("enableCompetitiveRules"@)], "Competitive Rules"@, KindSpec::Bool),
        (seq![PartSpec::Part("gamemodes"@), PartSpec::Part("control"@), PartSpec::Part("enableCompetitiveRules"@)], "Competitive Rules"@, KindSpec::Bool),
        (seq![PartSpec::Part("gamemodes"@), PartSpec::Part("escort"@), PartSpec::Part("enableCompetitiveRules"@)], "Competitive Rules"@, KindSpec::Bool),
        (seq![PartSpec::Part("gamemodes"@), PartSpec::Part("hybrid"@), PartSpec::Part("enableCompetitiveRules"@)], "Competitive Rules"@, KindSpec::Bool),
        (seq![PartSpec::Part("gamemodes"@), PartSpec::Part("general"@), PartSpec::Part("heroLimit"@)], "Hero Limit"@, KindSpec::Enum("heroLimit"@)),
        (seq![PartSpec::Part("gamemodes"@), PartSpec::Part("general"@), PartSpec::Part("respawnTime%"@)], "Respawn Time Scalar"@, KindSpec::Percent),
        (seq![PartSpec::Part("gamemodes"@), PartSpec::Part("general"@), PartSpec::Part("enableHeroSwitching"@)], "Allow Hero Switching"@, KindSpec::Bool),
        (seq![PartSpec::Part("gamemodes"@), PartSpec::Part("general"@), PartSpec::Part("enableRandomHeroes"@)], "Respawn As Random Hero"@, KindSpec::Bool),
        (seq![PartSpec::Part("heroes"@), PartSpec::Team, PartSpec::Part("enabledHeroes"@)], "enabled heroes"@, KindSpec::ListHero),
        (seq![PartSpec::Part("heroes"@), PartSpec::Team, PartSpec::Part("disabledHeroes"@)], "disabled heroes"@, KindSpec::ListHero),
        (seq![PartSpec::Part("heroes"@), PartSpec::Team, PartSpec::Hero, PartSpec::Part("enablePrimaryFire"@)], "Primary Fire"@, KindSpec::Bool),
        (seq![PartSpec::Part("heroes"@), PartSpec::Team, PartSpec::Hero, PartSpec::Part("enableSecondaryFire"@)], "Secondary Fire"@, KindSpec::Bool),
        (seq![PartSpec::Part("heroes"@), PartSpec::Team, PartSpec::Hero, PartSpec::Part("enableAbility1"@)], "Cryo-Freeze"@, KindSpec::Bool),
        (seq![PartSpec::Part("heroes"@), PartSpec::Team, PartSpec::Hero, PartSpec::Part("enableAbility2"@)], "Ice Wall"@, KindSpec::Bool),
        (seq![PartSpec::Part("heroes"@), PartSpec::Team, PartSpec::Hero, PartSpec::Part("health%"@)], "Health"@, KindSpec::Percent),
        (seq![PartSpec::Part("heroes"@), PartSpec::Team, PartSpec::Hero, PartSpec::Part("passiveUltGen%"@)], "Ultimate Generation - Passive Blizzard"@, KindSpec::Percent),
        (seq![PartSpec::Part("heroes"@), PartSpec::Team, PartSpec::Hero, PartSpec::Part("combatUltGen%"@)], "Ultimate Generation - Combat Blizzard"@, KindSpec::Percent),
    ]
}

/// The settings table.
pub fn entries() -> (v: Vec<TableEntry>)
    ensures
        v@.map_values(|e: TableEntry| entry_spec(e)) == settings_table(),
{
    let mut v: Vec<TableEntry> = Vec::new();
    v.push(TableEntry { path: vec![PathPart::Part("main"), PathPart::Part("description")], workshop_name: "Description", kind: KeyKind::String });
    v.push(TableEntry { path: vec![PathPart::Part("main"), PathPart::Part("modeName")], workshop_name: "Mode Name", kind: KeyKind::String });
    v.push(TableEntry { path: vec![PathPart::Part("lobby"), PathPart::Part("ffaSlots")], workshop_name: "Max FFA Players", kind: KeyKind::Number });
    v.push(TableEntry { path: vec![PathPart::Part("gamemodes"), PathPart::Part("assault"), PathPart::Part("enabled")], workshop_name: "enabled", kind: KeyKind::Bool });
    v.push(TableEntry { path: vec![PathPart::Part("gamemodes"), PathPart::Part("control"), PathPart::Part("enabled")], workshop_name: "enabled", kind: KeyKind::Bool });
    v.push(TableEntry { path: vec![PathPart::Part("gamemodes"), PathPart::Part("escort"), PathPart::Part("enabled")], workshop_name: "enabled", kind: KeyKind::Bool });
    v.push(TableEntry { path: vec![PathPart::Part("gamemodes"), PathPart::Part("hybrid"), PathPart::Part("enabled")], workshop_name: "enabled", kind: KeyKind::Bool });
    v.push(TableEntry { path: vec![PathPart::Part("gamemodes"), PathPart::Part("assault"), PathPart::Part("enabledMaps")], workshop_name: "enabled maps", kind: KeyKind::ListMap });
    v.push(TableEntry { path: vec![PathPart::Part("gamemodes"), PathPart::Part("control"), PathPart::Part("enabledMaps")], workshop_name: "enabled maps", kind: KeyKind::ListMap });
    v.push(TableEntry { path: vec![PathPart::Part("gamemodes"), PathPart::Part("escort"), PathPart::Part("enabledMaps")], workshop_name: "enabled maps", kind: KeyKind::ListMap });
    v.push(TableEntry { path: vec![PathPart::Part("gamemodes"), PathPart::Part("hybrid"), PathPart::Part("enabledMaps")], workshop_name: "enabled maps", kind: KeyKind::ListMap });
    v.push(TableEntry { path: vec![PathPart::Part("gamemodes"), PathPart::Part("skirmish"), PathPart::Part("enabledMaps")], workshop_name: "enabled maps", kind: KeyKind::ListMap });
    v.push(TableEntry { path: vec![PathPart::Part("gamemodes"), PathPart::Part("ffa"), PathPart::Part("enabledMaps")], workshop_name: "enabled maps", kind: KeyKind::ListMap });
    v.push(TableEntry { path: vec![PathPart::Part("gamemodes"), PathPart::Part("assault"), PathPart::Part("roleLimit")], workshop_name: "Limit Roles", kind: KeyKind::Enum("roleLimit") });
    v.push(TableEntry { path: vec![PathPart::Part("gamemodes"), PathPart::Part("control"), PathPart::Part("roleLimit")], workshop_name: "Limit Roles", kind: KeyKind::Enum("roleLimit") });
    v.push(TableEntry { path: vec![PathPart::Part("gamemodes"), PathPart::Part("escort"), PathPart::Part("roleLimit")], workshop_name: "Limit Roles", kind: KeyKind::Enum("roleLimit") });
    v.push(TableEntry { path: vec![PathPart::Part("gamemodes"), PathPart::Part("hybrid"), PathPart::Part("roleLimit")], workshop_name: "Limit Roles", kind: KeyKind::Enum("roleLimit") });
    v.push(TableEntry { path: vec![PathPart::Part("gamemodes"), PathPart::Part("assault"), PathPart::Part("enableCompetitiveRules")], workshop_name: "Competitive Rules", kind: KeyKind::Bool });
    v.push(TableEntry { path: vec![PathPart::Part("gamemodes"), PathPart::Part("control"), PathPart::Part("enableCompetitiveRules")], workshop_name: "Competitive Rules", kind: KeyKind::Bool });
    v.push(TableEntry { path: vec![PathPart::Part("gamemodes"), PathPart::Part("escort"), PathPart::Part("enableCompetitiveRules")], workshop_name: "Competitive Rules", kind: KeyKind::Bool });
    v.push(TableEntry { path: vec![PathPart::Part("gamemodes"), PathPart::Part("hybrid"), PathPart::Part("enableCompetitiveRules")], workshop_name: "Competitive Rules", kind: KeyKind::Bool });
    v.push(TableEntry { path: vec![PathPart::Part("gamemodes"), PathPart::Part("general"), PathPart::Part("heroLimit")], workshop_name: "Hero Limit", kind: KeyKind::Enum("heroLimit") });
    v.push(TableEntry { path: vec![PathPart::Part("gamemodes"), PathPart::Part("general"), PathPart::Part("respawnTime%")], workshop_name: "Respawn Time Scalar", kind: KeyKind::Percent });
    v.push(TableEntry { path: vec![PathPart::Part("gamemodes"), PathPart::Part("general"), PathPart::Part("enableHeroSwitching")], workshop_name: "Allow Hero Switching", kind: KeyKind::Bool });
    v.push(TableEntry { path: vec![PathPart::Part("gamemodes"), PathPart::Part("general"), PathPart::Part("enableRandomHeroes")], workshop_name: "Respawn As Random Hero", kind: KeyKind::Bool });
    v.push(TableEntry { path: vec![PathPart::Part("heroes"), PathPart::Team, PathPart::Part("enabledHeroes")], workshop_name: "enabled heroes", kind: KeyKind::ListHero });
    v.push(TableEntry { path: vec![PathPart::Part("heroes"), PathPart::Team, PathPart::Part("disabledHeroes")], workshop_name: "disabled heroes", kind: KeyKind::ListHero });
    v.push(TableEntry { path: vec![PathPart::Part("heroes"), PathPart::Team, PathPart::Hero, PathPart::Part("enablePrimaryFire")], workshop_name: "Primary Fire", kind: KeyKind::Bool });
    v.push(TableEntry { path: vec![PathPart::Part("heroes"), PathPart::Team, PathPart::Hero, PathPart::Part("enableSecondaryFire")], workshop_name: "Secondary Fire", kind: KeyKind::Bool });
    v.push(TableEntry { path: vec![PathPart::Part("heroes"), PathPart::Team, PathPart::Hero, PathPart::Part("enableAbility1")], workshop_name: "Cryo-Freeze", kind: KeyKind::Bool });
    v.push(TableEntry { path: vec![PathPart::Part("heroes"), PathPart::Team, PathPart::Hero, PathPart::Part("enableAbility2")], workshop_name: "Ice Wall", kind: KeyKind::Bool });
    v.push(TableEntry { path: vec![PathPart::Part("heroes"), PathPart::Team, PathPart::Hero, PathPart::Part("health%")], workshop_name: "Health", kind: KeyKind::Percent });
    v.push(TableEntry { path: vec![PathPart::Part("heroes"), PathPart::Team, PathPart::Hero, PathPart::Part("passiveUltGen%")], workshop_name: "Ultimate Generation - Passive Blizzard", kind: KeyKind::Percent });
    v.push(TableEntry { path: vec![PathPart::Part("heroes"), PathPart::Team, PathPart::Hero, PathPart::Part("combatUltGen%")], workshop_name: "Ultimate Generation - Combat Blizzard", kind: KeyKind::Percent });
    assert(v@.map_values(|e: TableEntry| entry_spec(e)) =~~= settings_table());
    v
}

/// Two path segments are the same: equal literal keys, or the same slot.
pub open spec fn parts_match(a: PartSpec, b: PartSpec) -> bool {
    match (a, b) {
        (PartSpec::Part(x), PartSpec::Part(y)) => x == y,
        (PartSpec::Team, PartSpec::Team) => true,
        (PartSpec::Hero, PartSpec::Hero) => true,
        _ => false,
    }
}

/// Two paths are the same, segment by segment.
pub open spec fn paths_match(a: Seq<PartSpec>, b: Seq<PartSpec>) -> bool {
    a.len() == b.len() && forall|i: int| 0 <= i < a.len() ==> #[trigger] parts_match(a[i], b[i])
}

impl<'a> PathPart<'a> {
    /// Whether two path segments are the same.
    pub fn same(&self, other: &PathPart) -> (r: bool)
        ensures
            r == parts_match(part_spec(*self), part_spec(*other)),
    {
        match (self, other) {
            (PathPart::Part(a), PathPart::Part(b)) => str_eq(a, b),
            (PathPart::Team, PathPart::Team) => true,
            (PathPart::Hero, PathPart::Hero) => true,
            _ => false,
        }
    }
}

fn same_path(a: &[PathPart], b: &[PathPart]) -> (r: bool)
    ensures
        r == paths_match(path_spec(a@), path_spec(b@)),
{
    if a.len() != b.len() {
        return false;
    }
    let mut i: usize = 0;
    while i < a.len()
        invariant
            i <= a@.len(),
            a@.len() == b@.len(),
            forall|j: int| 0 <= j < i ==> #[trigger] parts_match(path_spec(a@)[j], path_spec(b@)[j]),
        decreases a@.len() - i,
    {
        if !a[i].same(&b[i]) {
            assert(!parts_match(path_spec(a@)[i as int], path_spec(b@)[i as int]));
            return false;
        }
        i = i + 1;
    }
    true
}

/// Look up a settings leaf entry by its exact path: the first table entry
/// whose path is the same.
pub fn lookup(path: &[PathPart]) -> (r: Option<TableEntry>)
    ensures
        match r {
            Some(e) => exists|i: int|
                0 <= i < settings_table().len() && entry_spec(e) == #[trigger] settings_table()[i]
                    && paths_match(settings_table()[i].0, path_spec(path@)) && forall|j: int|
                    0 <= j < i ==> !paths_match(settings_table()[j].0, path_spec(path@)),
            None => forall|i: int|
                0 <= i < settings_table().len() ==> !paths_match(
                    #[trigger] settings_table()[i].0,
                    path_spec(path@),
                ),
        },
{
    let table = entries();
    let mut i: usize = 0;
    while i < table.len()
        invariant
            i <= table@.len(),
            table@.map_values(|e: TableEntry| entry_spec(e)) == settings_table(),
            forall|j: int| 0 <= j < i ==> !paths_match(settings_table()[j].0, path_spec(path@)),
        decreases table@.len() - i,
    {
        assert(settings_table()[i as int] == entry_spec(table@[i as int]));
        if same_path(table[i].path.as_slice(), path) {
            let e = table[i].clone_entry();
            return Some(e);
        }
        i = i + 1;
    }
    None
}

impl TableEntry {
    /// A copy of the entry.
    pub fn clone_entry(&self) -> (r: TableEntry)
        ensures
            entry_spec(r) == entry_spec(*self),
    {
        let mut path: Vec<PathPart<'static>> = Vec::new();
        let mut i: usize = 0;
        while i < self.path.len()
            invariant
                i <= self.path@.len(),
                path_spec(path@) == path_spec(self.path@).take(i as int),
            decreases self.path@.len() - i,
        {
            let p = self.path[i];
            let ghost prev = path@;
            path.push(p);
            assert(path@ =~= prev.push(self.path@[i as int]));
            assert(path_spec(path@) =~= path_spec(prev).push(part_spec(self.path@[i as int])));
            assert(path_spec(path@) =~= path_spec(self.path@).take(i + 1));
            i = i + 1;
        }
        assert(path_spec(self.path@).take(i as int) =~= path_spec(self.path@));
        TableEntry { path, workshop_name: self.workshop_name, kind: self.kind }
    }
}

/// The localized name of a game mode.
pub open spec fn mode_name_of(key: Seq<char>) -> Option<Seq<char>> {
    if key == "assault"@ {
        Some("Assault"@)
    } else if key == "control"@ {
        Some("Control"@)
    } else if key == "escort"@ {
        Some("Escort"@)
    } else if key == "hybrid"@ {
        Some("Hybrid"@)
    } else if key == "skirmish"@ {
        Some("Skirmish"@)
    } else if key == "ffa"@ {
        Some("Deathmatch"@)
    } else if key == "general"@ {
        Some("General"@)
    } else {
        None
    }
}
/// The localized name of a game mode.
pub fn mode_name(key: &str) -> (r: Option<&'static str>)
    ensures
        match mode_name_of(key@) {
            Some(n) => r matches Some(x) && x@ == n,
            None => r is None,
        },
{
    if str_eq(key, "assault") {
        Some("Assault")
    } else if str_eq(key, "control") {
        Some("Control")
    } else if str_eq(key, "escort") {
        Some("Escort")
    } else if str_eq(key, "hybrid") {
        Some("Hybrid")
    } else if str_eq(key, "skirmish") {
        Some("Skirmish")
    } else if str_eq(key, "ffa") {
        Some("Deathmatch")
    } else if str_eq(key, "general") {
        Some("General")
    } else {
        None
    }
}
/// The localized name of a map.
pub open spec fn map_name_of(key: Seq<char>) -> Option<Seq<char>> {
    if key == "workshopIsland"@ {
        Some("Workshop Island"@)
    } else if key == "kingsRowWinter"@ {
        Some("King's Row Winter"@)
    } else {
        None
    }
}
/// The localized name of a map.
pub fn map_name(key: &str) -> (r: Option<&'static str>)
    ensures
        match map_name_of(key@) {
            Some(n) => r matches Some(x) && x@ == n,
            None => r is None,
        },
{
    if str_eq(key, "workshopIsland") {
        Some("Workshop Island")
    } else if str_eq(key, "kingsRowWinter") {
        Some("King's Row Winter")
    } else {
        None
    }
}
/// The localized name of a hero.
pub open spec fn hero_name_of(key: Seq<char>) -> Option<Seq<char>> {
    if key == "ashe"@ {
        Some("Ashe"@)
    } else if key == "bastion"@ {
        Some("Bastion"@)
    } else if key == "dva"@ {
        Some("D.Va"@)
    } else if key == "doomfist"@ {
        Some("Doomfist"@)
    } else if key == "echo"@ {
        Some("Echo"@)
    } else if key == "moira"@ {
        Some("Moira"@)
    } else if key == "reinhardt"@ {
        Some("Reinhardt"@)
    } else if key == "hammond"@ {
        Some("Wrecking Ball"@)
    } else if key == "zenyatta"@ {
        Some("Zenyatta"@)
    } else if key == "mei"@ {
        Some("Mei"@)
    } else {
        None
    }
}
/// The localized name of a hero.
pub fn hero_name(key: &str) -> (r: Option<&'static str>)
    ensures
        match hero_name_of(key@) {
            Some(n) => r matches Some(x) && x@ == n,
            None => r is None,
        },
{
    if str_eq(key, "ashe") {
        Some("Ashe")
    } else if str_eq(key, "bastion") {
        Some("Bastion")
    } else if str_eq(key, "dva") {
        Some("D.Va")
    } else if str_eq(key, "doomfist") {
        Some("Doomfist")
    } else if str_eq(key, "echo") {
        Some("Echo")
    } else if str_eq(key, "moira") {
        Some("Moira")
    } else if str_eq(key, "reinhardt") {
        Some("Reinhardt")
    } else if str_eq(key, "hammond") {
        Some("Wrecking Ball")
    } else if str_eq(key, "zenyatta") {
        Some("Zenyatta")
    } else if str_eq(key, "mei") {
        Some("Mei")
    } else {
        None
    }
}
/// The localized name of a team.
pub open spec fn team_name_of(key: Seq<char>) -> Option<Seq<char>> {
    if key == "allTeams"@ {
        Some("General"@)
    } else {
        None
    }
}
/// The localized name of a team.
pub fn team_name(key: &str) -> (r: Option<&'static str>)
    ensures
        match team_name_of(key@) {
            Some(n) => r matches Some(x) && x@ == n,
            None => r is None,
        },
{
    if str_eq(key, "allTeams") {
        Some("General")
    } else {
        None
    }
}

/// The localized name of an enum member in a domain.
pub open spec fn enum_name_of(domain: Seq<char>, member: Seq<char>) -> Option<Seq<char>> {
    if domain == "roleLimit"@ && member == "2OfEachRolePerTeam"@ {
        Some("2 Of Each Role Per Team"@)
    } else if domain == "heroLimit"@ && member == "off"@ {
        Some("Off"@)
    } else {
        None
    }
}

/// The localized name of an enum member in a domain.
pub fn enum_name(domain: &str, member: &str) -> (r: Option<&'static str>)
    ensures
        match enum_name_of(domain@, member@) {
            Some(n) => r matches Some(x) && x@ == n,
            None => r is None,
        },
{
    if str_eq(domain, "roleLimit") && str_eq(member, "2OfEachRolePerTeam") {
        Some("2 Of Each Role Per Team")
    } else if str_eq(domain, "heroLimit") && str_eq(member, "off") {
        Some("Off")
    } else {
        None
    }
}

/// The rendering of one path segment.
pub open spec fn part_text(p: PartSpec) -> Seq<char> {
    match p {
        PartSpec::Part(s) => s,
        PartSpec::Team => "<team>"@,
        PartSpec::Hero => "<hero>"@,
    }
}

/// Segments rendered and joined with `.`.
pub open spec fn dotted(ps: Seq<PartSpec>) -> Seq<char>
    decreases ps.len(),
{
    if ps.len() == 0 {
        Seq::<char>::empty()
    } else if ps.len() == 1 {
        part_text(ps[0])
    } else {
        dotted(ps.drop_last()) + "."@ + part_text(ps.last())
    }
}

/// A human-readable rendering of a path (diagnostics): its segments joined
/// with `.`, slots shown as `<team>` and `<hero>`.
pub fn path_string(path: &[PathPart]) -> (s: String)
    ensures
        s@ == dotted(path_spec(path@)),
{
    let mut s = String::new();
    let mut i: usize = 0;
    while i < path.len()
        invariant
            i <= path@.len(),
            s@ == dotted(path_spec(path@).take(i as int)),
        decreases path@.len() - i,
    {
        proof {
            assert(path_spec(path@).take(i + 1).drop_last() =~= path_spec(path@).take(i as int));
        }
        if i > 0 {
            s.append(".");
        }
        match path[i] {
            PathPart::Part(name) => s.append(name),
            PathPart::Team => s.append("<team>"),
            PathPart::Hero => s.append("<hero>"),
        }
        i = i + 1;
        assert(s@ =~= dotted(path_spec(path@).take(i as int)));
    }
    assert(path_spec(path@).take(i as int) =~= path_spec(path@));
    s
}

} // verus!
