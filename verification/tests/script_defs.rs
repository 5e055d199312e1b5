use pulsive::identity::DefId;
use pulsive::loader::{GameDefs, Loader};
use pulsive::schema::{EntityTypeDef, EventDef, EventOption, PropertyDef, PropertyType, ResourceDef};
use pulsive::script_error::Error;
use pulsive::transport::PacketType;
use pulsive::value::Value;

#[test]
fn test_entity_type_def() {
    let nation = EntityTypeDef::new("nation", "Nation")
        .with_property(PropertyDef::string("name").required())
        .with_property(PropertyDef::float("gold").with_default(Value::Float(0.0f64.to_bits())))
        .with_property(PropertyDef::integer("stability").with_default(Value::Int(0)));

    assert_eq!(nation.id.as_str(), "nation");
    assert_eq!(nation.properties.len(), 3);
}

#[test]
fn test_event_def_basic() {
    let event = EventDef::new("peasant_uprising", "Peasant Uprising");
    assert_eq!(event.id.as_str(), "peasant_uprising");
    assert_eq!(f64::from_bits(event.weight), 1.0);
}

#[test]
fn property_builders_set_type_flag_and_default() {
    let p = PropertyDef::float("gold").required();
    assert!(matches!(p.property_type, PropertyType::Float));
    assert!(p.required);
    assert!(p.default.is_none());
    let q = PropertyDef::string("name").with_default(Value::String("x".to_string()));
    assert!(matches!(q.property_type, PropertyType::String));
    assert!(!q.required);
    assert!(matches!(q.default, Some(Value::String(ref s)) if s == "x"));
    let option = EventOption::new("accept", "Accept");
    assert_eq!(f64::from_bits(option.ai_weight), 1.0);
    assert!(option.effects.is_empty());
    let gold = ResourceDef::new("gold", "Gold");
    assert_eq!(f64::from_bits(gold.base_value), 1.0);
    assert!(!gold.tradeable);
}

#[test]
fn loading_resources_stops_at_the_first_duplicate() {
    let mut loader = Loader::new();
    loader.load_resources(vec![ResourceDef::new("gold", "Gold"), ResourceDef::new("manpower", "Manpower")]).unwrap();
    let r = loader.load_resources(vec![ResourceDef::new("grain", "Grain"), ResourceDef::new("gold", "Gold again"), ResourceDef::new("wood", "Wood")]);
    match r {
        Err(Error::DuplicateDefinition(id)) => assert_eq!(id, "gold"),
        other => panic!("unexpected {:?}", other),
    }
    let defs = loader.finish();
    assert!(defs.get_resource(&DefId::new("grain")).is_some());
    assert!(defs.get_resource(&DefId::new("wood")).is_none());
    assert_eq!(defs.get_resource(&DefId::new("gold")).unwrap().name, "Gold");
    assert_eq!(defs.resources().len(), 3);
}

#[test]
fn single_definitions_are_checked_for_duplicates_within_their_kind() {
    let mut loader = Loader::default();
    loader.add_event(EventDef::new("gold", "Gold rush")).unwrap();
    loader.add_resource(ResourceDef::new("gold", "Gold")).unwrap();
    loader.add_entity_type(EntityTypeDef::new("gold", "Gold mine")).unwrap();
    assert!(matches!(loader.add_event(EventDef::new("gold", "Again")), Err(Error::DuplicateDefinition(_))));
    loader.load_events(vec![EventDef::new("war", "War")]).unwrap();
    loader.load_entity_types(vec![EntityTypeDef::new("nation", "Nation")]).unwrap();
    let defs: &GameDefs = loader.defs();
    assert_eq!(defs.events().len(), 2);
    assert_eq!(defs.entity_types().len(), 2);
    assert!(defs.get_entity_type(&DefId::new("nation")).is_some());
    assert!(defs.get_event(&DefId::new("peace")).is_none());
}

#[test]
fn script_errors_have_texts() {
    assert_eq!(Error::DuplicateDefinition("gold".to_string()).to_text(), "Duplicate definition: gold");
    assert_eq!(Error::MissingField("id".to_string()).to_text(), "Missing required field: id");
    assert_eq!(Error::InvalidSchema("x".to_string()).to_text(), "Invalid schema: x");
    assert_eq!(Error::Io("denied".to_string()).to_text(), "IO error: denied");
    assert_eq!(Error::Ron("bad".to_string()).to_text(), "RON parse error: bad");
}

#[test]
fn packets_carry_their_fields() {
    let p = PacketType::StateDelta { base_tick: 3, target_tick: 5, data: vec![1, 2] };
    match p {
        PacketType::StateDelta { base_tick, target_tick, data } => {
            assert_eq!((base_tick, target_tick, data.len()), (3, 5, 2));
        }
        _ => unreachable!(),
    }
}
