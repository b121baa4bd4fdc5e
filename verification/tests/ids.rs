//! Checked identifiers.

use sparkplug_mqtt::sparkplug::topic::ids::OwnedEdgeNode;
use sparkplug_mqtt::{DeviceId, EdgeNode, EdgeNodeId, GroupId, HostId, SparkplugError};

#[test]
fn ids_a_usable_segment_is_accepted() {
    assert_eq!(GroupId::new("PlantFloor").unwrap().as_str(), "PlantFloor");
    assert_eq!(EdgeNodeId::new("edge-1").unwrap().as_str(), "edge-1");
    assert_eq!(DeviceId::new("pump_3").unwrap().as_str(), "pump_3");
    assert_eq!(HostId::new("scada_1").unwrap().as_str(), "scada_1");
}

#[test]
fn ids_an_unusable_segment_is_rejected() {
    for bad in ["", "a/b", "a+b", "a#b"] {
        assert!(GroupId::new(bad).is_err(), "group id {bad:?}");
        assert!(EdgeNodeId::new(bad).is_err(), "edge node id {bad:?}");
        assert!(DeviceId::new(bad).is_err(), "device id {bad:?}");
        assert!(HostId::new(bad).is_err(), "host id {bad:?}");
    }
}

#[test]
fn ids_the_error_names_which_identifier_failed() {
    let message = DeviceId::new("pump/3").unwrap_err().message();
    assert!(
        message.contains("device id"),
        "the error must name the identifier, got: {message}"
    );
    let message = EdgeNodeId::new("").unwrap_err().message();
    assert!(
        message.contains("edge node id"),
        "the error must name the identifier, got: {message}"
    );
}

#[test]
fn ids_the_error_quotes_the_segment() {
    let error = GroupId::new("a\"/\n").unwrap_err();
    assert!(
        matches!(
            &error,
            SparkplugError::InvalidTopic(reason)
                if reason == "group id \"a\\\"/\\n\" must be non-empty and free of '/', '+' and '#'"
        ),
        "got {error:?}"
    );
    let error = HostId::new("").unwrap_err();
    assert_eq!(
        error.message(),
        "invalid topic format: host id \"\" must be non-empty and free of '/', '+' and '#'"
    );
}

#[test]
fn ids_an_identifier_borrows_rather_than_allocates() {
    let owned = String::from("PlantFloor");
    let id = GroupId::new(&owned).unwrap();
    assert!(
        std::ptr::eq(id.as_str(), owned.as_str()),
        "the identifier must borrow its text, not copy it"
    );
}

#[test]
fn ids_try_from_and_display_agree_with_new() {
    let id = GroupId::try_from("PlantFloor").unwrap();
    assert_eq!(id, GroupId::new("PlantFloor").unwrap());
    assert_eq!(id.to_string(), "PlantFloor");
    assert_eq!(id.as_ref(), "PlantFloor");
}

#[test]
fn ids_try_from_refuses_what_new_refuses() {
    assert!(GroupId::try_from("a/b").is_err());
    assert!(EdgeNodeId::try_from("").is_err());
    assert!(DeviceId::try_from("a+b").is_err());
    assert!(HostId::try_from("a#b").is_err());
}

#[test]
fn ids_a_segment_may_hold_any_other_character() {
    let id = DeviceId::new("p\u{fc}mp \u{1f4a7}").unwrap();
    assert_eq!(id.as_str(), "p\u{fc}mp \u{1f4a7}");
    assert!(DeviceId::new("p\u{fc}mp/\u{1f4a7}").is_err());
}

#[test]
fn an_edge_node_keeps_its_two_segments_apart() {
    let edge_node = EdgeNode::new(
        GroupId::new("PlantFloor").unwrap(),
        EdgeNodeId::new("edge_node_1").unwrap(),
    );
    assert_eq!(edge_node.group().as_str(), "PlantFloor");
    assert_eq!(edge_node.edge_node_id().as_str(), "edge_node_1");
}

#[test]
fn one_edge_node_id_in_two_groups_names_two_edge_nodes() {
    let edge_node_id = EdgeNodeId::new("edge1").unwrap();
    let plant = EdgeNode::new(GroupId::new("PlantFloor").unwrap(), edge_node_id);
    let boiler = EdgeNode::new(GroupId::new("Boiler").unwrap(), edge_node_id);
    assert_ne!(
        plant, boiler,
        "Sparkplug names an edge node by the pair, so the group must count"
    );
}

#[test]
fn an_owned_edge_node_hands_back_the_pair_it_took() {
    let borrowed = EdgeNode::new(
        GroupId::new("PlantFloor").unwrap(),
        EdgeNodeId::new("edge_node_1").unwrap(),
    );
    let owned = OwnedEdgeNode::from(borrowed);

    assert_eq!(
        EdgeNode::from(&owned),
        borrowed,
        "the owned pair must name the same edge node as the pair it took"
    );
    assert_eq!(owned.clone(), owned);
}

#[test]
fn an_owned_edge_node_outlives_the_strings_it_was_built_from() {
    let owned = {
        let group = String::from("PlantFloor");
        let edge_node_id = String::from("edge_node_1");
        OwnedEdgeNode::from(EdgeNode::new(
            GroupId::new(&group).unwrap(),
            EdgeNodeId::new(&edge_node_id).unwrap(),
        ))
    };

    assert_eq!(EdgeNode::from(&owned).group().as_str(), "PlantFloor");
    assert_eq!(
        EdgeNode::from(&owned).edge_node_id().as_str(),
        "edge_node_1"
    );
}
