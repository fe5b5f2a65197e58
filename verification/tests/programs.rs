use opcua_server::address_space::references::BrowseDirection;
use opcua_server::address_space::type_tree::TypeTree;
use opcua_server::address_space::{AddressSpace, NodeClass, NodeValue};
use opcua_server::program_engine::{
    apply_program_action, program_flags, program_initial, program_state_text, program_step, ProgramAction, ProgramEvent, ProgramState,
    PROGRAM_PROGRESS_DONE,
};
use opcua_server::status::StatusCode;
use opcua_server::node_id::NodeId;
use opcua_server::programs::{program_base_name, program_component_id, register_program_nodes, PROGRAM_PARTS};

const HAS_COMPONENT: u32 = 47;

#[test]
fn register_program_creates_object_variables_and_methods() {
    let mut space = AddressSpace::new();
    let id = register_program_nodes(&mut space, "Pump1", "Flush");
    assert!(id.equals(&NodeId::string(2, "Program_Pump1_Flush")));
    assert_eq!(space.node_count(), 1 + PROGRAM_PARTS);

    let object = space.node_at(space.find(&id).unwrap());
    assert!(matches!(object.node_class, NodeClass::Object));
    assert_eq!(object.browse_name.name, "Program_Pump1_Flush");

    let current = program_component_id("Program_Pump1_Flush", "CurrentState");
    assert!(current.equals(&NodeId::string(2, "Program_Pump1_Flush_CurrentState")));
    let node = space.node_at(space.find(&current).unwrap());
    assert!(matches!(node.node_class, NodeClass::Variable));
    assert!(node.data_type.equals(&NodeId::numeric(0, 12)));
    assert_eq!(node.browse_name.name, "CurrentState");

    let progress = space.node_at(space.find(&NodeId::string(2, "Program_Pump1_Flush_Progress")).unwrap());
    assert!(progress.data_type.equals(&NodeId::numeric(0, 6)));
    let haltable = space.node_at(space.find(&NodeId::string(2, "Program_Pump1_Flush_Haltable")).unwrap());
    assert!(haltable.data_type.equals(&NodeId::numeric(0, 1)));
    let reset = space.node_at(space.find(&NodeId::string(2, "Program_Pump1_Flush_Reset")).unwrap());
    assert!(matches!(reset.node_class, NodeClass::Method));

    // Every component hangs off the Program by HasComponent.
    let tree = TypeTree::new();
    let components = space.find_references(&tree, &id, &Some((NodeId::numeric(0, HAS_COMPONENT), false)), BrowseDirection::Forward);
    assert_eq!(components.len(), PROGRAM_PARTS);
    assert!(components.iter().all(|r| r.is_forward));
    assert_eq!(program_base_name("Pump1", "Flush"), "Program_Pump1_Flush");
}

#[test]
fn registering_a_program_twice_adds_nothing_new() {
    let mut space = AddressSpace::new();
    register_program_nodes(&mut space, "D", "P");
    let count = space.node_count();
    register_program_nodes(&mut space, "D", "P");
    assert_eq!(space.node_count(), count);
    register_program_nodes(&mut space, "D", "Q");
    assert_eq!(space.node_count(), 2 * count);
}

fn value_of<'a>(space: &'a AddressSpace, text: &str) -> &'a NodeValue {
    &space.node_at(space.find(&NodeId::string(2, text)).unwrap()).value
}

#[test]
fn register_program_writes_initial_values_and_type_definition() {
    let mut space = AddressSpace::new();
    let id = register_program_nodes(&mut space, "Pump1", "Flush");
    assert!(matches!(value_of(&space, "Program_Pump1_Flush_CurrentState"), NodeValue::Text(t) if t == "Halted"));
    assert!(matches!(value_of(&space, "Program_Pump1_Flush_LastTransition"), NodeValue::Text(t) if t.is_empty()));
    assert!(matches!(value_of(&space, "Program_Pump1_Flush_Haltable"), NodeValue::Boolean(false)));
    assert!(matches!(value_of(&space, "Program_Pump1_Flush_Suspendable"), NodeValue::Boolean(false)));
    assert!(matches!(value_of(&space, "Program_Pump1_Flush_Resumable"), NodeValue::Boolean(false)));
    assert!(matches!(value_of(&space, "Program_Pump1_Flush_Resetable"), NodeValue::Boolean(true)));
    assert!(matches!(value_of(&space, "Program_Pump1_Flush_Progress"), NodeValue::Int32(0)));
    assert!(matches!(value_of(&space, "Program_Pump1_Flush_Start"), NodeValue::Empty));
    assert!(space.has_reference(&id, &NodeId::numeric(0, 2393), &NodeId::numeric(0, 40)));
}

#[test]
fn program_engine_follows_the_transition_table() {
    let (state, progress) = program_initial();
    assert_eq!((state, progress), (ProgramState::Halted, 0));
    assert_eq!(program_step(state, progress, ProgramEvent::Start), Err(StatusCode::BadInvalidState));
    assert_eq!(program_step(state, progress, ProgramEvent::Halt), Err(StatusCode::BadInvalidState));
    assert_eq!(program_step(state, 7, ProgramEvent::Reset), Ok((ProgramState::Ready, 0, ProgramAction::Reset)));
    assert_eq!(program_step(ProgramState::Ready, 0, ProgramEvent::Start), Ok((ProgramState::Running, 0, ProgramAction::Started)));
    assert_eq!(program_step(ProgramState::Ready, 0, ProgramEvent::Suspend), Err(StatusCode::BadInvalidState));
    assert_eq!(program_step(ProgramState::Running, 5, ProgramEvent::Suspend), Ok((ProgramState::Suspended, 5, ProgramAction::Suspended)));
    assert_eq!(program_step(ProgramState::Suspended, 5, ProgramEvent::Resume), Ok((ProgramState::Running, 5, ProgramAction::Resumed)));
    assert_eq!(program_step(ProgramState::Running, 5, ProgramEvent::Resume), Err(StatusCode::BadInvalidState));
    assert_eq!(program_step(ProgramState::Suspended, 5, ProgramEvent::Halt), Ok((ProgramState::Halted, 5, ProgramAction::Halted)));
    assert_eq!(program_step(ProgramState::Running, 5, ProgramEvent::Reset), Err(StatusCode::BadInvalidState));
    assert_eq!(program_flags(ProgramState::Halted), (false, false, false, true));
    assert_eq!(program_flags(ProgramState::Running), (true, true, false, false));
    assert_eq!(program_state_text(ProgramState::Suspended), "Suspended");
}

#[test]
fn program_engine_ticks_to_completion() {
    assert_eq!(program_step(ProgramState::Running, 0, ProgramEvent::Tick), Ok((ProgramState::Running, 1, ProgramAction::Idle)));
    assert_eq!(program_step(ProgramState::Running, 1, ProgramEvent::Tick), Ok((ProgramState::Running, 2, ProgramAction::ProgressChanged(2))));
    assert_eq!(program_step(ProgramState::Suspended, 3, ProgramEvent::Tick), Ok((ProgramState::Suspended, 3, ProgramAction::Idle)));
    let (mut state, mut progress) = (ProgramState::Running, 0u8);
    let mut ticks = 0;
    while state == ProgramState::Running {
        let (s, p, action) = program_step(state, progress, ProgramEvent::Tick).unwrap();
        state = s;
        progress = p;
        ticks += 1;
        if state == ProgramState::Halted {
            assert_eq!(action, ProgramAction::Completed);
        }
    }
    assert_eq!(ticks, 100);
    assert_eq!(progress, PROGRAM_PROGRESS_DONE);
}

#[test]
fn program_actions_write_the_variables() {
    let mut space = AddressSpace::new();
    register_program_nodes(&mut space, "D", "P");
    let base = "Program_D_P";
    apply_program_action(&mut space, base, ProgramState::Ready, 0, ProgramAction::Reset);
    assert!(matches!(value_of(&space, "Program_D_P_CurrentState"), NodeValue::Text(t) if t == "Ready"));
    assert!(matches!(value_of(&space, "Program_D_P_LastTransition"), NodeValue::Text(t) if t == "Reset"));
    assert!(matches!(value_of(&space, "Program_D_P_Haltable"), NodeValue::Boolean(true)));
    assert!(matches!(value_of(&space, "Program_D_P_Resetable"), NodeValue::Boolean(false)));
    apply_program_action(&mut space, base, ProgramState::Running, 42, ProgramAction::ProgressChanged(42));
    assert!(matches!(value_of(&space, "Program_D_P_Progress"), NodeValue::Int32(42)));
    assert!(matches!(value_of(&space, "Program_D_P_CurrentState"), NodeValue::Text(t) if t == "Ready"));
    apply_program_action(&mut space, base, ProgramState::Halted, 100, ProgramAction::Completed);
    assert!(matches!(value_of(&space, "Program_D_P_Progress"), NodeValue::Int32(100)));
    assert!(matches!(value_of(&space, "Program_D_P_CurrentState"), NodeValue::Text(t) if t == "Halted"));
    assert!(matches!(value_of(&space, "Program_D_P_Resetable"), NodeValue::Boolean(true)));
    assert!(matches!(value_of(&space, "Program_D_P_LastTransition"), NodeValue::Text(t) if t == "Reset"));
}
