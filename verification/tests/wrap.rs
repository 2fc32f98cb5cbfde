use ludusavi::wrap::{
    first_line_of, game_name_from_info, get_game_name_from_heroic_launch_commands, heroic_launch, text_ends_with,
    GogInfo, WrapError,
};

fn commands(parts: &[&str]) -> Vec<String> {
    parts.iter().map(|part| part.to_string()).collect()
}

fn message(error: WrapError) -> String {
    match error {
        WrapError::CommandNotRecognized { msg } => msg,
        WrapError::MissingArguments => panic!("a message was expected"),
    }
}

#[test]
fn launch_through_gogdl_gives_directory_and_id() {
    let launch = heroic_launch(&commands(&[
        "/usr/bin/mangohud",
        "--dlsym",
        "/opt/Heroic/resources/app.asar.unpacked/build/bin/linux/gogdl",
        "--auth-config-path",
        "/home/user/.config/heroic/gog_store/auth.json",
        "launch",
        "/home/user/Games/Heroic/Slain",
        "1234567890",
        "--wine",
        "/usr/bin/wine",
    ]))
    .unwrap();
    assert_eq!("/home/user/Games/Heroic/Slain", launch.game_dir);
    assert_eq!("1234567890", launch.game_id);
    assert_eq!("/home/user/Games/Heroic/Slain/gameinfo", launch.native_info_path());
    assert_eq!("/home/user/Games/Heroic/Slain/goggame-1234567890.info", launch.windows_info_path());
}

#[test]
fn launch_before_the_launcher_does_not_count() {
    let error = heroic_launch(&commands(&["launch", "dir", "id", "gogdl"])).unwrap_err();
    assert_eq!("gogdl launch parameter not found", message(error));
}

#[test]
fn first_launcher_and_first_launch_after_it_count() {
    let launch = heroic_launch(&commands(&["x/gogdl", "y/gogdl", "prelaunch", "a", "b", "launch", "c", "d"])).unwrap();
    assert_eq!("a", launch.game_dir);
    assert_eq!("b", launch.game_id);
}

#[test]
fn unknown_launcher_is_not_recognized() {
    let error = heroic_launch(&commands(&["legendary", "launch", "d8a4c98b5020483881eb7f0c3fc4cea3"])).unwrap_err();
    assert_eq!("unknown launcher in command line parameters", message(error));
    let error = heroic_launch(&commands(&[])).unwrap_err();
    assert_eq!("unknown launcher in command line parameters", message(error));
}

#[test]
fn commands_that_end_too_early_miss_arguments() {
    assert!(matches!(heroic_launch(&commands(&["gogdl", "launch"])), Err(WrapError::MissingArguments)));
    assert!(matches!(heroic_launch(&commands(&["gogdl", "launch", "dir"])), Err(WrapError::MissingArguments)));
    assert!(heroic_launch(&commands(&["gogdl", "launch", "dir", "id"])).is_ok());
}

#[test]
fn ends_of_texts() {
    assert!(text_ends_with("/bin/gogdl", "gogdl"));
    assert!(text_ends_with("gogdl", "gogdl"));
    assert!(text_ends_with("gogdl", ""));
    assert!(text_ends_with("", ""));
    assert!(!text_ends_with("gogd", "gogdl"));
    assert!(!text_ends_with("gogdl ", "gogdl"));
    assert!(!text_ends_with("", "x"));
    assert!(text_ends_with("naïve", "ïve"));
    assert!(!text_ends_with("naive", "ïve"));
}

#[test]
fn first_lines() {
    assert_eq!("Slain", first_line_of("Slain\n1.0\n"));
    assert_eq!("Slain", first_line_of("Slain\r\n1.0\r\n"));
    assert_eq!("Slain", first_line_of("Slain"));
    assert_eq!("Slain\r", first_line_of("Slain\r"));
    assert_eq!("Sl\rain", first_line_of("Sl\rain\n"));
    assert_eq!("", first_line_of(""));
    assert_eq!("", first_line_of("\nSlain"));
    assert_eq!("", first_line_of("\r\nSlain"));
    assert_eq!("Größe", first_line_of("Größe\nzwei"));
}

#[test]
fn first_line_is_what_std_gives() {
    for text in ["", "a", "a\n", "a\r\n", "a\r", "\r", "\n", "\r\n", "a\n\nb", "\r\r\n", "a\rb\r\nc"] {
        assert_eq!(text.lines().next().unwrap_or_default(), first_line_of(text), "for {:?}", text);
    }
}

#[test]
fn name_of_a_native_game() {
    let info = GogInfo::Native {
        path: "/games/slain/gameinfo".to_string(),
        content: "Slain: Back from Hell\n1.2.3\n".to_string(),
    };
    assert_eq!("Slain: Back from Hell", game_name_from_info(&info).unwrap());
    let empty = GogInfo::Native { path: "/games/slain/gameinfo".to_string(), content: "\nname".to_string() };
    assert_eq!("Error reading /games/slain/gameinfo", message(game_name_from_info(&empty).unwrap_err()));
}

#[test]
fn name_of_a_windows_game() {
    let path = "/games/slain/goggame-1.info".to_string();
    let found = GogInfo::Windows { path: path.clone(), name: Ok("Slain".to_string()) };
    assert_eq!("Slain", game_name_from_info(&found).unwrap());
    let nameless = GogInfo::Windows { path: path.clone(), name: Ok(String::new()) };
    assert_eq!(
        "Error reading /games/slain/goggame-1.info, no name entry found.",
        message(game_name_from_info(&nameless).unwrap_err())
    );
    let broken = GogInfo::Windows { path, name: Err("expected value at line 1 column 1".to_string()) };
    assert_eq!(
        "Error reading /games/slain/goggame-1.info: expected value at line 1 column 1",
        message(game_name_from_info(&broken).unwrap_err())
    );
}

#[test]
fn name_from_commands_and_files() {
    let info = GogInfo::Native { path: "dir/gameinfo".to_string(), content: "Slain".to_string() };
    assert_eq!(
        "Slain",
        get_game_name_from_heroic_launch_commands(&commands(&["gogdl", "launch", "dir", "id"]), &info).unwrap()
    );
    let error = get_game_name_from_heroic_launch_commands(&commands(&["steam", "launch", "dir", "id"]), &info)
        .unwrap_err();
    assert_eq!("unknown launcher in command line parameters", message(error));
    assert!(matches!(
        get_game_name_from_heroic_launch_commands(&commands(&["gogdl", "launch", "dir"]), &info),
        Err(WrapError::MissingArguments)
    ));
}
