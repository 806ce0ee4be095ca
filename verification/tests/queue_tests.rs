use epsilon::error::EpsilonError;
use epsilon::group::Group;
use epsilon::queue::Queue;
use epsilon::queue_provider::QueueProvider;
use epsilon::instance_type::InstanceType;
use epsilon::resources::{Resources, ResourcesInfo};
use epsilon::template::Template;

fn group_of(players: &[&str], queue: &str) -> Group {
    Group {
        players: players.iter().map(|p| p.to_string()).collect(),
        queue: queue.to_string(),
    }
}

fn template_named(name: &str) -> Template {
    Template {
        name: name.to_string(),
        parent: String::new(),
        t: InstanceType::Server,
        slots: 20,
        resources: Resources {
            minimum: ResourcesInfo { cpu: 1, ram: 512 },
            maximum: ResourcesInfo { cpu: 2, ram: 1024 },
        },
    }
}

#[test]
fn new_queue_is_empty() {
    let mut queue = Queue::new();
    assert!(queue.is_empty());
    assert_eq!(queue.len(), 0);
    assert_eq!(queue.member_count(), 0);
    assert!(queue.peek().is_none());
    assert!(queue.pop().is_none());
}

#[test]
fn push_appends_at_the_tail() {
    let mut queue = Queue::new();
    queue.push(group_of(&["alice"], "T"));
    queue.push(group_of(&["bob", "carol"], "T"));
    assert_eq!(queue.len(), 2);
    assert!(!queue.is_empty());
    assert_eq!(queue.peek().unwrap().players, vec!["alice".to_string()]);
    let first = queue.pop().unwrap();
    assert_eq!(first.players, vec!["alice".to_string()]);
    let second = queue.pop().unwrap();
    assert_eq!(second.players, vec!["bob".to_string(), "carol".to_string()]);
    assert!(queue.pop().is_none());
}

#[test]
fn player_requeue_removes_the_earlier_group() {
    let mut queue = Queue::new();
    queue.push(group_of(&["alice", "bob"], "T"));
    queue.push(group_of(&["bob", "carol"], "T"));
    assert_eq!(queue.len(), 1);
    let head = queue.peek().unwrap();
    assert_eq!(head.players, vec!["bob".to_string(), "carol".to_string()]);
    assert!(queue.has_member("alice"));
    assert!(queue.has_member("bob"));
    assert!(queue.has_member("carol"));
    assert!(!queue.has_member("dave"));
    assert_eq!(queue.member_count(), 3);
}

#[test]
fn push_leaves_no_other_group_with_a_pushed_player() {
    let mut queue = Queue::new();
    queue.push(group_of(&["a", "b"], "T"));
    queue.push(group_of(&["c"], "T"));
    queue.push(group_of(&["d", "e"], "T"));
    queue.push(group_of(&["e", "a"], "T"));
    assert_eq!(queue.len(), 2);
    let first = queue.pop().unwrap();
    assert_eq!(first.players, vec!["c".to_string()]);
    let second = queue.pop().unwrap();
    assert_eq!(second.players, vec!["e".to_string(), "a".to_string()]);
    assert!(!first.contains(&"e".to_string()));
    assert!(!first.contains(&"a".to_string()));
}

#[test]
fn disjoint_pushes_keep_waiting_players_equal_to_members() {
    let mut queue = Queue::new();
    queue.push(group_of(&["a", "b"], "T"));
    queue.push(group_of(&["c"], "T"));
    queue.push(group_of(&["d", "e", "f"], "T"));
    assert_eq!(queue.member_count(), 6);
    let mut waiting = 0;
    while let Some(group) = queue.pop() {
        for player in &group.players {
            assert!(queue.has_member(player));
        }
        waiting += group.players.len();
    }
    assert_eq!(waiting, 6);
}

#[test]
fn pop_keeps_the_members() {
    let mut queue = Queue::new();
    queue.push(group_of(&["alice"], "T"));
    let popped = queue.pop().unwrap();
    assert_eq!(popped.queue, "T");
    assert!(queue.is_empty());
    assert!(queue.has_member("alice"));
    assert_eq!(queue.member_count(), 1);
}

#[test]
fn a_player_named_twice_in_a_group_is_one_member() {
    let mut queue = Queue::new();
    queue.push(group_of(&["a", "a"], "T"));
    assert_eq!(queue.len(), 1);
    assert_eq!(queue.member_count(), 1);
    assert_eq!(queue.peek().unwrap().players.len(), 2);
}

#[test]
fn a_returning_player_displaces_nothing_that_already_left() {
    let mut queue = Queue::new();
    queue.push(group_of(&["a"], "T"));
    queue.push(group_of(&["b"], "T"));
    assert_eq!(queue.pop().unwrap().players, vec!["a".to_string()]);
    queue.push(group_of(&["a"], "T"));
    assert_eq!(queue.len(), 2);
    assert_eq!(queue.pop().unwrap().players, vec!["b".to_string()]);
    assert_eq!(queue.pop().unwrap().players, vec!["a".to_string()]);
}

#[test]
fn group_contains_tells_its_players() {
    let group = group_of(&["alice", "bob"], "T");
    assert!(group.contains(&"alice".to_string()));
    assert!(group.contains(&"bob".to_string()));
    assert!(!group.contains(&"carol".to_string()));
    assert!(!group_of(&[], "T").contains(&"alice".to_string()));
}

#[test]
fn registry_has_one_queue_for_each_template_name() {
    let templates = vec![template_named("hub"), template_named("bedwars"), template_named("hub")];
    let provider = QueueProvider::new(&templates);
    let queues = provider.get_queues();
    assert_eq!(queues.len(), 2);
    assert_eq!(queues[0].name, "hub");
    assert_eq!(queues[1].name, "bedwars");
    assert!(queues[0].queue.is_empty());
    assert!(queues[1].queue.is_empty());
    assert_eq!(provider.find("bedwars"), Some(1));
    assert_eq!(provider.find("skywars"), None);
}

#[test]
fn registry_push_goes_to_the_named_queue() {
    let templates = vec![template_named("hub"), template_named("bedwars")];
    let mut provider = QueueProvider::new(&templates);
    assert!(provider.push(group_of(&["alice"], "bedwars")).is_ok());
    assert_eq!(provider.get_queues()[0].queue.len(), 0);
    assert_eq!(provider.get_queues()[1].queue.len(), 1);
    assert_eq!(
        provider.get_queues()[1].queue.peek().unwrap().players,
        vec!["alice".to_string()]
    );
}

#[test]
fn registry_push_to_unknown_queue_is_refused() {
    let templates = vec![template_named("hub")];
    let mut provider = QueueProvider::new(&templates);
    let refused = provider.push(group_of(&["alice"], "skywars"));
    match refused {
        Err(EpsilonError::QueueNotFoundError(name)) => assert_eq!(name, "skywars"),
        other => panic!("expected a missing queue, got {:?}", other),
    }
    assert_eq!(provider.get_queues()[0].queue.len(), 0);
}
