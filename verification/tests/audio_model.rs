use cosmic_osd::components::audio::model::{ActiveNode, AudioEvent, Model, Nodes, Response};

fn model_with_default_sink(id: u32) -> Model {
    let mut model = Model::default();
    assert_eq!(model.update(AudioEvent::Node(id, true)), None);
    // The first default is the state we connected to.
    assert_eq!(model.update(AudioEvent::DefaultSink(id)), None);
    model
}

#[test]
fn nodes_remove_reports_whether_the_node_was_known() {
    let mut nodes = Nodes::default();
    assert_eq!(nodes.push(7), 0);
    assert_eq!(nodes.push(9), 1);
    assert!(nodes.remove(7));
    assert!(!nodes.remove(7));
    assert!(nodes.remove(9));
    assert!(!nodes.remove(9));
}

#[test]
fn nodes_remove_undoes_push() {
    let mut nodes = Nodes::default();
    nodes.push(1);
    let pos = nodes.push(2);
    assert_eq!(pos, 1);
    assert!(nodes.remove(2));
    // The table is back to one node: the next one lands at index 1 again.
    assert_eq!(nodes.push(3), 1);
}

#[test]
fn first_volume_and_mute_reports_are_silent() {
    let mut model = model_with_default_sink(40);
    assert_eq!(model.update(AudioEvent::NodeVolume(40, 50)), None);
    assert_eq!(model.active_sink, ActiveNode { volume: 50, mute: false });
    assert_eq!(model.update(AudioEvent::NodeMute(40, true)), None);
    assert_eq!(model.active_sink, ActiveNode { volume: 50, mute: true });
}

#[test]
fn later_reports_raise_the_osd() {
    let mut model = model_with_default_sink(40);
    model.update(AudioEvent::NodeVolume(40, 50));
    model.update(AudioEvent::NodeMute(40, false));
    assert_eq!(model.update(AudioEvent::NodeVolume(40, 60)), Some(Response::SinkVolume(60, false)));
    assert_eq!(model.update(AudioEvent::NodeMute(40, true)), Some(Response::SinkVolume(60, true)));
    assert_eq!(model.active_sink, ActiveNode { volume: 60, mute: true });
}

#[test]
fn unchanged_values_are_silent() {
    let mut model = model_with_default_sink(40);
    model.update(AudioEvent::NodeVolume(40, 50));
    model.update(AudioEvent::NodeMute(40, false));
    assert_eq!(model.update(AudioEvent::NodeVolume(40, 50)), None);
    assert_eq!(model.update(AudioEvent::NodeMute(40, false)), None);
}

#[test]
fn non_default_nodes_are_silent() {
    let mut model = model_with_default_sink(40);
    model.update(AudioEvent::Node(41, true));
    model.update(AudioEvent::NodeVolume(41, 10));
    assert_eq!(model.update(AudioEvent::NodeVolume(41, 20)), None);
    assert_eq!(model.active_sink, ActiveNode { volume: 0, mute: false });
}

#[test]
fn a_new_default_raises_the_osd() {
    let mut model = model_with_default_sink(40);
    model.update(AudioEvent::Node(41, true));
    model.update(AudioEvent::NodeVolume(41, 30));
    assert_eq!(model.update(AudioEvent::DefaultSink(41)), Some(Response::SinkVolume(30, false)));
    assert_eq!(model.active_sink, ActiveNode { volume: 30, mute: false });
}

#[test]
fn sources_answer_with_source_responses() {
    let mut model = Model::default();
    model.update(AudioEvent::Node(5, false));
    assert_eq!(model.update(AudioEvent::DefaultSource(5)), None);
    assert_eq!(model.update(AudioEvent::NodeMute(5, true)), None);
    assert_eq!(model.update(AudioEvent::NodeVolume(5, 70)), None);
    assert_eq!(model.update(AudioEvent::NodeVolume(5, 80)), Some(Response::SourceVolume(80, true)));
    assert_eq!(model.active_source, ActiveNode { volume: 80, mute: true });
    assert_eq!(model.active_sink, ActiveNode { volume: 0, mute: false });
}

#[test]
fn a_default_named_before_its_node_takes_effect_when_it_appears() {
    let mut model = Model::default();
    assert_eq!(model.update(AudioEvent::DefaultSink(3)), None);
    assert_eq!(model.update(AudioEvent::Node(3, true)), None);
    model.update(AudioEvent::NodeVolume(3, 25));
    assert_eq!(model.active_sink, ActiveNode { volume: 25, mute: false });
    assert_eq!(model.update(AudioEvent::NodeVolume(3, 35)), Some(Response::SinkVolume(35, false)));
}

#[test]
fn removed_nodes_are_forgotten() {
    let mut model = model_with_default_sink(40);
    model.update(AudioEvent::NodeVolume(40, 50));
    assert_eq!(model.update(AudioEvent::RemoveNode(40)), None);
    assert_eq!(model.update(AudioEvent::NodeVolume(40, 60)), None);
    assert_eq!(model.update(AudioEvent::NodeMute(40, true)), None);
    assert_eq!(model.active_sink, ActiveNode { volume: 50, mute: false });
}

#[test]
fn other_events_change_nothing() {
    let mut model = model_with_default_sink(40);
    assert_eq!(model.update(AudioEvent::Other), None);
    assert_eq!(model.update(AudioEvent::RemoveNode(99)), None);
    assert_eq!(model.active_sink, ActiveNode { volume: 0, mute: false });
}

#[test]
fn a_stale_active_index_is_not_accepted() {
    let mut model = Model::default();
    model.update(AudioEvent::Node(1, true));
    model.update(AudioEvent::Node(2, true));
    model.update(AudioEvent::DefaultSink(2));
    assert!(model.accepts(&AudioEvent::NodeVolume(2, 5)));
    model.update(AudioEvent::RemoveNode(1));
    // The default's recorded index still points past the one remaining node.
    assert!(!model.accepts(&AudioEvent::NodeVolume(2, 5)));
    assert!(model.accepts(&AudioEvent::NodeMute(2, true)));
    assert!(model.accepts(&AudioEvent::NodeVolume(3, 5)));
}

#[test]
fn describing_a_node_twice_keeps_one_entry() {
    let mut model = Model::default();
    model.update(AudioEvent::Node(8, true));
    model.update(AudioEvent::Node(8, true));
    assert_eq!(model.update(AudioEvent::RemoveNode(8)), None);
    // Only one entry existed: after removing it the node is unknown.
    model.update(AudioEvent::DefaultSink(8));
    assert_eq!(model.update(AudioEvent::NodeVolume(8, 40)), None);
    assert_eq!(model.active_sink, ActiveNode { volume: 0, mute: false });
}

#[test]
fn sinks_are_looked_up_before_sources() {
    let mut model = Model::default();
    model.update(AudioEvent::Node(4, true));
    model.update(AudioEvent::Node(4, false));
    model.update(AudioEvent::DefaultSource(4));
    model.update(AudioEvent::NodeVolume(4, 10));
    // The report went to the sink with that id, not to the default source.
    assert_eq!(model.active_source, ActiveNode { volume: 0, mute: false });
    // Removal also takes the sink first; the source stays.
    model.update(AudioEvent::RemoveNode(4));
    model.update(AudioEvent::NodeVolume(4, 20));
    assert_eq!(model.active_source, ActiveNode { volume: 20, mute: false });
}
