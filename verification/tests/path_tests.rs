use bastion::path::{ActorNodeType, ActorPath, ActorScope, NodeAddress};

fn remote() -> ActorNodeType {
    ActorNodeType::Remote(NodeAddress { a: 127, b: 0, c: 0, d: 1, port: 8080 })
}

#[test]
fn construct_local_user_path_group() {
    let instance = ActorPath::default()
        .node_name("test")
        .node_type(ActorNodeType::Local)
        .scope(ActorScope::User)
        .name("processing/1");

    assert_eq!(instance.to_string(), "bastion://test/user/processing/1");
}

#[test]
fn construct_local_system_path_group() {
    let instance = ActorPath::default()
        .node_name("test")
        .node_type(ActorNodeType::Local)
        .scope(ActorScope::System)
        .name("processing/1");

    assert_eq!(instance.to_string(), "bastion://test/system/processing/1");
}

#[test]
fn construct_local_deadletter_path_group() {
    let instance = ActorPath::default()
        .node_name("test")
        .node_type(ActorNodeType::Local)
        .scope(ActorScope::DeadLetter)
        .name("processing/1");

    assert_eq!(instance.to_string(), "bastion://test/dead_letter/processing/1");
}

#[test]
fn construct_local_temporary_path_group() {
    let instance = ActorPath::default()
        .node_name("test")
        .node_type(ActorNodeType::Local)
        .scope(ActorScope::Temporary)
        .name("processing/1");

    assert_eq!(instance.to_string(), "bastion://test/temporary/processing/1");
}

#[test]
fn construct_remote_user_path_group() {
    let instance = ActorPath::default()
        .node_name("test")
        .node_type(remote())
        .scope(ActorScope::Temporary)
        .name("processing/1");

    assert_eq!(
        instance.to_string(),
        "bastion://test@127.0.0.1:8080/temporary/processing/1"
    );
}

#[test]
fn construct_remote_system_path_group() {
    let instance = ActorPath::default()
        .node_name("test")
        .node_type(remote())
        .scope(ActorScope::System)
        .name("processing/1");

    assert_eq!(
        instance.to_string(),
        "bastion://test@127.0.0.1:8080/system/processing/1"
    );
}

#[test]
fn construct_remote_deadletter_path_group() {
    let instance = ActorPath::default()
        .node_name("test")
        .node_type(remote())
        .scope(ActorScope::DeadLetter)
        .name("processing/1");

    assert_eq!(
        instance.to_string(),
        "bastion://test@127.0.0.1:8080/dead_letter/processing/1"
    );
}

#[test]
fn construct_remote_temporary_path_group() {
    let instance = ActorPath::default()
        .node_name("test")
        .node_type(remote())
        .scope(ActorScope::Temporary)
        .name("processing/1");

    assert_eq!(
        instance.to_string(),
        "bastion://test@127.0.0.1:8080/temporary/processing/1"
    );
}

#[test]
fn construct_local_user_path_without_group() {
    let instance = ActorPath::default()
        .node_type(ActorNodeType::Local)
        .scope(ActorScope::User)
        .name("1");

    assert_eq!(instance.to_string(), "bastion://node/user/1");
}

#[test]
fn construct_local_system_path_without_group() {
    let instance = ActorPath::default()
        .node_type(ActorNodeType::Local)
        .scope(ActorScope::System)
        .name("1");

    assert_eq!(instance.to_string(), "bastion://node/system/1");
}

#[test]
fn construct_local_deadletter_path_without_group() {
    let instance = ActorPath::default()
        .node_type(ActorNodeType::Local)
        .scope(ActorScope::DeadLetter)
        .name("1");

    assert_eq!(instance.to_string(), "bastion://node/dead_letter/1");
}

#[test]
fn construct_local_temporary_path_without_group() {
    let instance = ActorPath::default()
        .node_type(ActorNodeType::Local)
        .scope(ActorScope::Temporary)
        .name("1");

    assert_eq!(instance.to_string(), "bastion://node/temporary/1");
}

#[test]
fn construct_remote_user_path_without_group() {
    let instance = ActorPath::default()
        .node_type(remote())
        .scope(ActorScope::User)
        .name("1");

    assert_eq!(instance.to_string(), "bastion://node@127.0.0.1:8080/user/1");
}

#[test]
fn construct_remote_system_path_without_group() {
    let instance = ActorPath::default()
        .node_type(remote())
        .scope(ActorScope::System)
        .name("1");

    assert_eq!(instance.to_string(), "bastion://node@127.0.0.1:8080/system/1");
}

#[test]
fn construct_remote_deadletter_path_without_group() {
    let instance = ActorPath::default()
        .node_type(remote())
        .scope(ActorScope::DeadLetter)
        .name("1");

    assert_eq!(instance.to_string(), "bastion://node@127.0.0.1:8080/dead_letter/1");
}

#[test]
fn construct_remote_temporary_path_without_group() {
    let instance = ActorPath::default()
        .node_type(remote())
        .scope(ActorScope::Temporary)
        .name("1");

    assert_eq!(instance.to_string(), "bastion://node@127.0.0.1:8080/temporary/1");
}

#[test]
fn default_path_has_node_system_scope_and_fresh_id() {
    let s = ActorPath::default().to_string();
    let prefix = "bastion://node/system/";
    assert!(s.starts_with(prefix));
    // the fresh identifier is a hyphenated 36-character value
    assert_eq!(s.len(), prefix.len() + 36);
}

#[test]
fn scope_tags_are_the_four_lowercase_words() {
    assert_eq!(ActorScope::User.as_str(), "user");
    assert_eq!(ActorScope::System.as_str(), "system");
    assert_eq!(ActorScope::DeadLetter.as_str(), "dead_letter");
    assert_eq!(ActorScope::Temporary.as_str(), "temporary");
}

#[test]
fn node_type_segment_formats_the_address() {
    assert_eq!(ActorNodeType::Local.to_string(), "");
    let t = ActorNodeType::Remote(NodeAddress { a: 10, b: 0, c: 255, d: 3, port: 65535 });
    assert_eq!(t.to_string(), "@10.0.255.3:65535");
    let z = ActorNodeType::Remote(NodeAddress { a: 0, b: 0, c: 0, d: 0, port: 0 });
    assert_eq!(z.to_string(), "@0.0.0.0:0");
}

#[test]
fn path_equality_is_structural() {
    let a = ActorPath::new("n", ActorNodeType::Local, ActorScope::User, "x");
    let b = ActorPath::new("n", ActorNodeType::Local, ActorScope::User, "x");
    let c = ActorPath::new("n", ActorNodeType::Local, ActorScope::System, "x");
    assert!(a == b);
    assert!(a != c);
}
