use gossip_node::topology::{same_names, Topology};

fn names(list: &[&str]) -> Vec<String> {
    list.iter().map(|name| name.to_string()).collect()
}

fn sorted(mut list: Vec<String>) -> Vec<String> {
    list.sort();
    list
}

#[test]
fn new_topology_names_no_node() {
    let topology = Topology::new();
    assert!(!topology.contains_node(&"n1".to_string()));
    assert_eq!(topology.neighbors(&"n1".to_string()), Vec::<String>::new());
    assert_eq!(topology.nodes(), Vec::<String>::new());
}

#[test]
fn neighbors_come_back_in_the_order_given() {
    let mut topology = Topology::new();
    topology.insert("n1".to_string(), names(&["n3", "n2"]));
    topology.insert("n2".to_string(), names(&["n1"]));
    assert!(topology.contains_node(&"n1".to_string()));
    assert_eq!(topology.neighbors(&"n1".to_string()), names(&["n3", "n2"]));
    assert_eq!(topology.neighbors(&"n2".to_string()), names(&["n1"]));
    assert_eq!(topology.neighbors(&"n3".to_string()), Vec::<String>::new());
    assert!(!topology.contains_node(&"n3".to_string()));
}

#[test]
fn insert_replaces_the_neighbors_of_a_node() {
    let mut topology = Topology::new();
    topology.insert("n1".to_string(), names(&["n2"]));
    topology.insert("n2".to_string(), names(&["n1"]));
    topology.insert("n1".to_string(), names(&["n3", "n4"]));
    assert_eq!(topology.neighbors(&"n1".to_string()), names(&["n3", "n4"]));
    assert_eq!(topology.neighbors(&"n2".to_string()), names(&["n1"]));
    assert_eq!(sorted(topology.nodes()), names(&["n1", "n2"]));
}

#[test]
fn a_node_may_have_no_neighbors() {
    let mut topology = Topology::new();
    topology.insert("n1".to_string(), Vec::new());
    assert!(topology.contains_node(&"n1".to_string()));
    assert_eq!(topology.neighbors(&"n1".to_string()), Vec::<String>::new());
}

#[test]
fn topologies_are_equal_when_they_say_the_same() {
    let mut first = Topology::new();
    first.insert("n1".to_string(), names(&["n2"]));
    first.insert("n2".to_string(), names(&["n1"]));
    let mut second = Topology::new();
    second.insert("n2".to_string(), names(&["n1"]));
    second.insert("n1".to_string(), names(&["n9"]));
    assert_ne!(first, second);
    second.insert("n1".to_string(), names(&["n2"]));
    assert_eq!(first, second);
    second.insert("n3".to_string(), Vec::new());
    assert_ne!(first, second);
    assert_ne!(second, first);
}

#[test]
fn the_order_of_neighbors_counts() {
    let mut first = Topology::new();
    first.insert("n1".to_string(), names(&["n2", "n3"]));
    let mut second = Topology::new();
    second.insert("n1".to_string(), names(&["n3", "n2"]));
    assert_ne!(first, second);
}

#[test]
fn a_clone_says_the_same() {
    let mut topology = Topology::new();
    topology.insert("n1".to_string(), names(&["n2", "n3"]));
    topology.insert("n2".to_string(), names(&["n1"]));
    let copy = topology.clone();
    assert_eq!(copy, topology);
    assert_eq!(copy.neighbors(&"n1".to_string()), names(&["n2", "n3"]));
}

#[test]
fn same_names_compares_name_by_name() {
    assert!(same_names(&names(&[]), &names(&[])));
    assert!(same_names(&names(&["a", "b"]), &names(&["a", "b"])));
    assert!(!same_names(&names(&["a", "b"]), &names(&["b", "a"])));
    assert!(!same_names(&names(&["a"]), &names(&["a", "a"])));
}
