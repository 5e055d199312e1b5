//! Content definitions loaded from scripts: resources, events and entity types.
//!
//! A number is held by the 64 bits of its IEEE-754 double encoding, as in [`Value`].
use vstd::prelude::*;
use crate::effect::Effect;
use crate::expr::Expr;
use crate::identity::DefId;
use crate::value::Value;

verus! {

/// The encoding of the number one.
pub const ONE_BITS: u64 = 0x3ff0_0000_0000_0000;

/// Definition of a resource type (gold, manpower, grain, ...).
#[derive(Debug)]
pub struct ResourceDef {
    /// Unique identifier.
    pub id: DefId,
    /// Display name.
    pub name: String,
    /// Description.
    pub description: String,
    /// Base value for trading and conversion.
    pub base_value: u64,
    /// Whether the resource can be traded.
    pub tradeable: bool,
    /// Decay rate per tick (zero for none).
    pub decay_rate: u64,
    /// Minimum value.
    pub min_value: Option<u64>,
    /// Maximum value.
    pub max_value: Option<u64>,
    /// Icon identifier for the user interface.
    pub icon: Option<String>,
    /// Color for the user interface, as a hex string.
    pub color: Option<String>,
}

impl ResourceDef {
    /// A resource with an ID and a name: no description, base value one, not tradeable,
    /// no decay, no bounds, icon or color.
    pub fn new(id: &str, name: &str) -> (r: Self)
        ensures
            r.id@ == id@,
            r.name@ == name@,
            r.description@.len() == 0,
            r.base_value == ONE_BITS,
            !r.tradeable,
            r.decay_rate == 0,
            r.min_value is None,
            r.max_value is None,
            r.icon is None,
            r.color is None,
    {
        ResourceDef {
            id: DefId::new(id),
            name: String::from_str(name),
            description: String::new(),
            base_value: ONE_BITS,
            tradeable: false,
            decay_rate: 0,
            min_value: None,
            max_value: None,
            icon: None,
            color: None,
        }
    }
}

/// A collection of resource definitions.
#[derive(Debug, Default)]
pub struct ResourceDefs {
    pub resources: Vec<ResourceDef>,
}

/// A modifier of the mean time to happen.
#[derive(Debug)]
pub struct MtthModifier {
    /// Condition for the modifier to apply.
    pub condition: Expr,
    /// Factor on the time (below one: more likely).
    pub factor: u64,
}

/// Mean time to happen, in ticks, for random events.
#[derive(Debug)]
pub struct MeanTimeToHappen {
    /// Base number of ticks.
    pub ticks: u64,
    /// Modifiers of the time.
    pub modifiers: Vec<MtthModifier>,
}

/// An option of an event.
#[derive(Debug)]
pub struct EventOption {
    /// Unique ID within the event.
    pub id: String,
    /// Display text.
    pub text: String,
    /// Condition for the option to be available.
    pub condition: Option<Expr>,
    /// Effects when the option is chosen.
    pub effects: Vec<Effect>,
    /// Weight for automated players.
    pub ai_weight: u64,
}

impl EventOption {
    /// An option with an ID and a text: no condition, no effects, weight one.
    pub fn new(id: &str, text: &str) -> (r: Self)
        ensures
            r.id@ == id@,
            r.text@ == text@,
            r.condition is None,
            r.effects@.len() == 0,
            r.ai_weight == ONE_BITS,
    {
        EventOption {
            id: String::from_str(id),
            text: String::from_str(text),
            condition: None,
            effects: Vec::new(),
            ai_weight: ONE_BITS,
        }
    }
}

/// Definition of an event.
#[derive(Debug)]
pub struct EventDef {
    /// Unique identifier.
    pub id: DefId,
    /// Display name.
    pub name: String,
    /// Description.
    pub description: String,
    /// Condition under which the event can fire.
    pub trigger: Option<Expr>,
    /// Mean time to happen, for random events.
    pub mtth: Option<MeanTimeToHappen>,
    /// Weight for random selection among eligible events.
    pub weight: u64,
    /// Whether the event fires at most once per target.
    pub fire_only_once: bool,
    /// Target entity kind, if any.
    pub target_kind: Option<DefId>,
    /// Effects before the options are shown.
    pub immediate: Vec<Effect>,
    /// Options to choose from.
    pub options: Vec<EventOption>,
    /// Category for grouping.
    pub category: Option<DefId>,
    /// Icon for the user interface.
    pub icon: Option<String>,
}

impl EventDef {
    /// An event with an ID and a name: no description, trigger or time to happen, weight
    /// one, not limited to one firing, no target kind, effects, options, category or icon.
    pub fn new(id: &str, name: &str) -> (r: Self)
        ensures
            r.id@ == id@,
            r.name@ == name@,
            r.description@.len() == 0,
            r.trigger is None,
            r.mtth is None,
            r.weight == ONE_BITS,
            !r.fire_only_once,
            r.target_kind is None,
            r.immediate@.len() == 0,
            r.options@.len() == 0,
            r.category is None,
            r.icon is None,
    {
        EventDef {
            id: DefId::new(id),
            name: String::from_str(name),
            description: String::new(),
            trigger: None,
            mtth: None,
            weight: ONE_BITS,
            fire_only_once: false,
            target_kind: None,
            immediate: Vec::new(),
            options: Vec::new(),
            category: None,
            icon: None,
        }
    }
}

/// A collection of event definitions.
#[derive(Debug, Default)]
pub struct EventDefs {
    pub events: Vec<EventDef>,
}

/// The type of a property.
#[derive(Debug)]
pub enum PropertyType {
    Bool,
    Int,
    Float,
    String,
    EntityRef,
    DefRef,
    List(Box<PropertyType>),
    Dict,
}

/// Definition of a property of an entity type.
#[derive(Debug)]
pub struct PropertyDef {
    /// Property name.
    pub name: String,
    /// Property type.
    pub property_type: PropertyType,
    /// Whether the property is required.
    pub required: bool,
    /// Default value.
    pub default: Option<Value>,
    /// Minimum value, for numbers.
    pub min: Option<u64>,
    /// Maximum value, for numbers.
    pub max: Option<u64>,
    /// Description.
    pub description: String,
}

/// `p` is an optional, unbounded property of type `t` named `name`, with no default and no
/// description.
pub open spec fn plain_property(p: PropertyDef, name: Seq<char>, t: PropertyType) -> bool {
    &&& p.name@ == name
    &&& p.property_type == t
    &&& !p.required
    &&& p.default is None
    &&& p.min is None
    &&& p.max is None
    &&& p.description@.len() == 0
}

impl PropertyDef {
    /// A property of a type, optional, unbounded, with no default and no description.
    fn with_type(name: &str, property_type: PropertyType) -> (r: Self)
        ensures
            plain_property(r, name@, property_type),
    {
        PropertyDef {
            name: String::from_str(name),
            property_type,
            required: false,
            default: None,
            min: None,
            max: None,
            description: String::new(),
        }
    }

    /// A number property.
    pub fn float(name: &str) -> (r: Self)
        ensures
            plain_property(r, name@, PropertyType::Float),
    {
        Self::with_type(name, PropertyType::Float)
    }

    /// An integer property.
    pub fn integer(name: &str) -> (r: Self)
        ensures
            plain_property(r, name@, PropertyType::Int),
    {
        Self::with_type(name, PropertyType::Int)
    }

    /// A text property.
    pub fn string(name: &str) -> (r: Self)
        ensures
            plain_property(r, name@, PropertyType::String),
    {
        Self::with_type(name, PropertyType::String)
    }

    /// This property, required.
    pub fn required(self) -> (r: Self)
        ensures
            r == (PropertyDef { required: true, ..self }),
    {
        let mut p = self;
        p.required = true;
        p
    }

    /// This property with a default value.
    pub fn with_default(self, value: Value) -> (r: Self)
        ensures
            r == (PropertyDef { default: Some(value), ..self }),
    {
        let mut p = self;
        p.default = Some(value);
        p
    }
}

/// Definition of an entity type (nation, province, army, ...).
#[derive(Debug)]
pub struct EntityTypeDef {
    /// Unique identifier.
    pub id: DefId,
    /// Display name.
    pub name: String,
    /// Description.
    pub description: String,
    /// Property schemas.
    pub properties: Vec<PropertyDef>,
    /// Default values of properties.
    pub defaults: Vec<(String, Value)>,
    /// Parent entity type, for inheritance.
    pub extends: Option<DefId>,
    /// Category for grouping.
    pub category: Option<DefId>,
}

impl EntityTypeDef {
    /// An entity type with an ID and a name: no description, properties, defaults, parent
    /// or category.
    pub fn new(id: &str, name: &str) -> (r: Self)
        ensures
            r.id@ == id@,
            r.name@ == name@,
            r.description@.len() == 0,
            r.properties@.len() == 0,
            r.defaults@.len() == 0,
            r.extends is None,
            r.category is None,
    {
        EntityTypeDef {
            id: DefId::new(id),
            name: String::from_str(name),
            description: String::new(),
            properties: Vec::new(),
            defaults: Vec::new(),
            extends: None,
            category: None,
        }
    }

    /// This entity type with one more property, at the end.
    pub fn with_property(self, prop: PropertyDef) -> (r: Self)
        ensures
            r.properties@ == self.properties@.push(prop),
            r.id == self.id,
            r.name == self.name,
            r.description == self.description,
            r.defaults == self.defaults,
            r.extends == self.extends,
            r.category == self.category,
    {
        let mut t = self;
        t.properties.push(prop);
        t
    }
}

/// A collection of entity type definitions.
#[derive(Debug, Default)]
pub struct EntityTypeDefs {
    pub entity_types: Vec<EntityTypeDef>,
}

} // verus!
