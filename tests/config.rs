use urocket_http_stage::cmdlineparser::{settings_from_args, Commands};
use urocket_http_stage::serviceconf::ServiceConf;
use urocket_http_stage::urconfig::UCommands;

#[test]
fn settings_cap_debug_and_default_to_run() {
    let c = settings_from_args("conf.yaml".to_string(), 7, None);
    assert_eq!(c.debug_level, 4);
    assert_eq!(c.command, UCommands::Run);
    assert!(c.serviceconf.is_none());
    assert!(c.get_socket().is_none());
    let d = settings_from_args("x".to_string(), 2, Some(Commands::Dry));
    assert_eq!(d.debug_level, 2);
    assert_eq!(d.command, UCommands::Dry);
    let p = settings_from_args("x".to_string(), 0, Some(Commands::Parse));
    assert_eq!(p.command, UCommands::Parse);
}

#[test]
fn installed_service_conf_gives_socket_and_paths() {
    let mut c = settings_from_args("conf.yaml".to_string(), 0, None);
    let mut conf = ServiceConf::default();
    conf.servicename = "mynastyphpport".to_string();
    conf.socketpath = "/tmp/urocket.sock".to_string();
    c.set_serviceconf(conf);
    assert_eq!(c.get_socket(), Some("/tmp/urocket.sock"));
    let copy = c.clone_paths();
    assert_eq!(copy.servicename, "mynastyphpport");
    let mut other = ServiceConf::default();
    other.socketpath = "/tmp/b".to_string();
    c.set_config(other);
    assert_eq!(c.get_socket(), Some("/tmp/b"));
}
