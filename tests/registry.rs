use prismlauncher::address::{Address, GameMode, Hostname};
use prismlauncher::application::{Application, Effect, Message, Screen, ValidationError};
use prismlauncher::bot::{Bot, Coordinates, Dimension, GameInfomation, Status};
use prismlauncher::configure::{self, Configure, Instruction};
use prismlauncher::launcher::{launch, LaunchParameters};

fn send(app: &mut Application, m: configure::Message) -> Result<Effect, ValidationError> {
    app.update(Message::Configure(m))
}

fn draft(app: &mut Application, name: &str, instance: &str, multiplayer: bool, text: &str) {
    send(app, configure::Message::BotNameChange(name.to_string())).unwrap();
    send(app, configure::Message::InstanceNameChange(instance.to_string())).unwrap();
    send(app, configure::Message::IsMultiplayer(multiplayer)).unwrap();
    send(app, configure::Message::GamemodeChange(text.to_string())).unwrap();
}

fn info() -> GameInfomation {
    GameInfomation {
        coordinates: Coordinates { x: 1, y: 64, z: -3 },
        dimension: Dimension::Nether,
        memory_usage: 1024,
    }
}

#[test]
fn new_form_is_empty_and_multiplayer() {
    let c = Configure::new();
    assert_eq!(c.username, "");
    assert_eq!(c.instance_name, "");
    assert!(c.is_multiplayer);
    assert_eq!(c.gamemode_raw, "");
    assert!(c.gamemode.is_none());
}

#[test]
fn form_messages_edit_the_draft() {
    let mut c = Configure::new();
    let a = c.update(configure::Message::BotNameChange("mankool69".to_string()));
    assert!(a.instruction.is_none() && a.task.is_empty());
    c.update(configure::Message::InstanceNameChange("inst".to_string()));
    c.update(configure::Message::GamemodeChange("10.0.0.2".to_string()));
    assert_eq!(c.username, "mankool69");
    assert_eq!(c.instance_name, "inst");
    assert_eq!(c.gamemode_raw, "10.0.0.2");
    assert!(matches!(
        c.gamemode,
        Some(GameMode::MultiPlayer(Address { hostname: Hostname::Ipv4([10, 0, 0, 2]), port: 25565 }))
    ));
    let a = c.update(configure::Message::Submit);
    assert!(matches!(a.instruction, Some(Instruction::Submit)));
    assert_eq!(c.username, "mankool69");
}

#[test]
fn mode_toggle_keeps_the_old_target_until_text_changes() {
    let mut c = Configure::new();
    c.update(configure::Message::GamemodeChange("example.com".to_string()));
    c.update(configure::Message::IsMultiplayer(false));
    assert!(!c.is_multiplayer);
    assert!(matches!(c.gamemode, Some(GameMode::MultiPlayer(_))));
    c.update(configure::Message::GamemodeChange("example.com".to_string()));
    assert!(matches!(&c.gamemode, Some(GameMode::SinglePlayer { world_name }) if world_name == "example.com"));
}

#[test]
fn new_application_shows_the_form() {
    let app = Application::new();
    assert!(app.bots.is_empty());
    assert_eq!(app.screen, Screen::Configure);
    assert_eq!(Screen::default(), Screen::Table);
}

#[test]
fn submit_without_connection_text_is_refused() {
    let mut app = Application::new();
    send(&mut app, configure::Message::BotNameChange("bob".to_string())).unwrap();
    let r = send(&mut app, configure::Message::Submit);
    assert!(matches!(r, Err(ValidationError::MissingTarget)));
    assert_eq!(app.bots.len(), 0);
    assert_eq!(app.screen, Screen::Configure);
    assert_eq!(app.state.configure.username, "bob");
}

#[test]
fn submit_moves_the_draft_into_a_new_bot() {
    let mut app = Application::new();
    draft(&mut app, "alice", "inst1", true, "192.168.1.5");
    let r = send(&mut app, configure::Message::Submit);
    assert!(matches!(r, Ok(Effect::Follow(ref v)) if v.is_empty()));
    assert_eq!(app.screen, Screen::Table);
    assert_eq!(app.state.configure.username, "");
    assert_eq!(app.state.configure.instance_name, "");
    assert!(app.state.configure.gamemode.is_none());
    assert_eq!(app.bots.len(), 1);
    let bot = &app.bots[0];
    assert_eq!(bot.username, "alice");
    assert_eq!(bot.instance, "inst1");
    assert_eq!(bot.status, Status::Offline);
    assert!(bot.game_infomation.is_none());
    assert!(matches!(
        bot.server,
        GameMode::MultiPlayer(Address { hostname: Hostname::Ipv4([192, 168, 1, 5]), port: 25565 })
    ));
    draft(&mut app, "changed", "other", false, "w");
    assert_eq!(app.bots[0].username, "alice");
    assert_eq!(app.bots[0].instance, "inst1");
    assert!(matches!(app.bots[0].server, GameMode::MultiPlayer(_)));
}

#[test]
fn bots_keep_submission_order_and_start_offline() {
    let mut app = Application::new();
    for (i, name) in ["a", "b", "c"].iter().enumerate() {
        draft(&mut app, name, "inst", i % 2 == 0, "world");
        send(&mut app, configure::Message::Submit).unwrap();
    }
    let names: Vec<&str> = app.bots.iter().map(|b| b.username.as_str()).collect();
    assert_eq!(names, vec!["a", "b", "c"]);
    assert!(app.bots.iter().all(|b| b.status == Status::Offline));
}

#[test]
fn second_submit_without_new_text_is_refused() {
    let mut app = Application::new();
    draft(&mut app, "a", "i", false, "w");
    send(&mut app, configure::Message::Submit).unwrap();
    let r = send(&mut app, configure::Message::Submit);
    assert!(matches!(r, Err(ValidationError::MissingTarget)));
    assert_eq!(app.bots.len(), 1);
}

#[test]
fn screen_and_exit_messages() {
    let mut app = Application::new();
    let r = app.update(Message::Screen(Screen::Table));
    assert!(matches!(r, Ok(Effect::Follow(_))));
    assert_eq!(app.screen, Screen::Table);
    assert!(matches!(app.update(Message::Exit), Ok(Effect::Exit)));
    assert_eq!(app.screen, Screen::Table);
}

#[test]
fn status_reports_update_one_bot() {
    let mut app = Application::new();
    draft(&mut app, "a", "i", false, "w");
    send(&mut app, configure::Message::Submit).unwrap();
    assert!(app.set_status(0, Status::Online, Some(info())));
    assert_eq!(app.bots[0].status, Status::Online);
    assert_eq!(app.bots[0].game_infomation, Some(info()));
    assert!(app.set_status(0, Status::Offline, Some(info())));
    assert_eq!(app.bots[0].status, Status::Offline);
    assert_eq!(app.bots[0].game_infomation, None);
    assert!(!app.set_status(1, Status::Online, None));
}

#[test]
fn status_order_and_text() {
    assert!(Status::Offline < Status::Online);
    assert_eq!(Status::default(), Status::Offline);
    assert_eq!(Status::Offline.to_string(), "Offline");
    assert_eq!(Status::Online.to_string(), "Online");
}

#[test]
fn new_bot_is_offline() {
    let bot = Bot::new(
        "n".to_string(),
        "i".to_string(),
        GameMode::SinglePlayer { world_name: "w".to_string() },
    );
    assert_eq!(bot.username, "n");
    assert_eq!(bot.instance, "i");
    assert_eq!(bot.status, Status::Offline);
    assert!(bot.game_infomation.is_none());
}

fn launch_first_bot(app: &Application) -> Vec<String> {
    let bot = &app.bots[0];
    launch(LaunchParameters {
        instance_id: bot.instance.clone(),
        gamemode: Some(bot.server.clone()),
        profile: None,
    })
}

#[test]
fn submitted_server_launches_with_server_argument() {
    let mut app = Application::new();
    draft(&mut app, "bot", "test", true, "192.168.1.5");
    send(&mut app, configure::Message::Submit).unwrap();
    assert_eq!(launch_first_bot(&app), vec!["--launch", "test", "--server", "192.168.1.5:25565"]);
}

#[test]
fn submitted_world_launches_with_world_argument() {
    let mut app = Application::new();
    draft(&mut app, "bot", "test", false, "myworld");
    send(&mut app, configure::Message::Submit).unwrap();
    assert_eq!(launch_first_bot(&app), vec!["--launch", "test", "--world", "myworld"]);
}
