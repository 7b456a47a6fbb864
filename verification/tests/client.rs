use watchmedo::client::{client_step, ClientEvent, ClientSession};
use watchmedo::paths::{choose_zle_module, greatest_path, path_less_exec};

fn fresh() -> ClientSession {
    ClientSession { target_peer: None, requested_history: false }
}

#[test]
fn client_requests_history_once_per_connection() {
    let (s, send) = client_step(fresh(), ClientEvent::Connected(vec![1, 2]));
    assert!(send);
    assert_eq!(s.target_peer, Some(vec![1, 2]));
    assert!(s.requested_history);

    let (s, send) = client_step(s, ClientEvent::Connected(vec![1, 2]));
    assert!(!send);
    assert!(s.requested_history);

    let (s, send) = client_step(s, ClientEvent::Closed(vec![9]));
    assert!(!send);
    assert!(s.requested_history);
    assert_eq!(s.target_peer, Some(vec![1, 2]));

    let (s, send) = client_step(s, ClientEvent::Closed(vec![1, 2]));
    assert!(!send);
    assert!(!s.requested_history);

    let (s, send) = client_step(s, ClientEvent::Connected(vec![3]));
    assert!(send);
    assert_eq!(s.target_peer, Some(vec![3]));
}

#[test]
fn closing_without_a_target_changes_nothing() {
    let (s, send) = client_step(
        ClientSession { target_peer: None, requested_history: true },
        ClientEvent::Closed(vec![1]),
    );
    assert!(!send);
    assert!(s.requested_history);
    assert_eq!(s.target_peer, None);
}

#[test]
fn paths_order_by_component() {
    assert!(path_less_exec("/usr/lib/zsh/5.9/zsh/zle.so", "/usr/lib/zsh/5.9.1/zsh/zle.so"));
    assert!(!path_less_exec("/usr/lib/zsh/5.9.1/zsh/zle.so", "/usr/lib/zsh/5.9/zsh/zle.so"));
    assert!(path_less_exec("/a", "/a/b"));
    assert!(!path_less_exec("/a//b/", "/a/b"));
    assert!(!path_less_exec("/a/b", "/a/./b"));
    assert!(path_less_exec("/", "a"));
    assert!(path_less_exec("./a", "a"));
    assert!(path_less_exec("../a", "a"));
    assert!(path_less_exec("a/b", "a/c"));
}

#[test]
fn greatest_path_is_the_last_after_sorting() {
    let paths = vec![
        "/usr/lib/zsh/5.9.1/zsh/zle.so".to_owned(),
        "/usr/lib/zsh/5.10/zsh/zle.so".to_owned(),
        "/usr/lib/zsh/5.9/zsh/zle.so".to_owned(),
    ];
    assert_eq!(greatest_path(&paths), Some("/usr/lib/zsh/5.9.1/zsh/zle.so".to_owned()));
    let ties = vec!["/a/b".to_owned(), "/a//b".to_owned()];
    assert_eq!(greatest_path(&ties), Some("/a//b".to_owned()));
    assert_eq!(greatest_path(&Vec::new()), None);
}

#[test]
fn zle_module_comes_from_the_first_pattern_with_matches() {
    let lists = vec![
        Vec::new(),
        vec!["/usr/lib64/zsh/5.8/zsh/zle.so".to_owned()],
        vec!["/usr/local/lib/zsh/5.9/zsh/zle.so".to_owned()],
    ];
    assert_eq!(choose_zle_module(&lists), Some("/usr/lib64/zsh/5.8/zsh/zle.so".to_owned()));
    assert_eq!(choose_zle_module(&vec![Vec::new(), Vec::new()]), None);
}
