use ruos::voice::{
    agent_status_reply, app_command, classify_command, contains_any, extract_after, extract_profile, launch_command,
    mic_muted, opening_reply, parse_command, recent_reply, run_agent_reply, security_reply, spoken_text, switch_reply,
    system_status_reply, transcript_text, unknown_profile_reply, wake_step, whisper_commands, CannedReply, Intent,
    VolumeChange, WakeStep,
};

fn intent_name(i: &Intent) -> String {
    format!("{i:?}")
}

#[test]
fn phrase_helpers() {
    assert!(contains_any("please run the system status now", &["status report", "system status"]));
    assert!(!contains_any("hello", &["bye"]));
    assert_eq!(extract_after("search for gpu tuning", &["search for", "find"]).as_deref(), Some("gpu tuning"));
    assert_eq!(extract_after("find   ", &["find"]), None);
    assert_eq!(extract_after("search for  \t", &["search for", "for"]), None);
    assert_eq!(extract_after("look up the weather", &["search for", "look up"]).as_deref(), Some("the weather"));
    assert_eq!(extract_profile("switch to training please").as_deref(), Some("gpu-train"));
    assert_eq!(extract_profile("go to low power").as_deref(), Some("cognitum-idle"));
    assert_eq!(extract_profile("normal mode").as_deref(), Some("cognitum-balanced"));
    assert_eq!(extract_profile("nothing"), None);
}

#[test]
fn classification_order() {
    assert!(matches!(classify_command("sorry, i didn't understand that"), Intent::Silent));
    assert!(matches!(classify_command("how are you"), Intent::SystemStatus));
    assert!(matches!(classify_command("what's the time"), Intent::Time));
    match classify_command("search brain for contrastive learning") {
        Intent::Search(q) => assert_eq!(q, "contrastive learning"),
        other => panic!("unexpected {}", intent_name(&other)),
    }
    assert!(matches!(classify_command("what did you learn today"), Intent::RecentMemories));
    match classify_command("switch to inference") {
        Intent::SwitchProfile(p) => assert_eq!(p, "gpu-inference"),
        other => panic!("unexpected {}", intent_name(&other)),
    }
    match classify_command("open the browser") {
        Intent::OpenApp(a) => assert_eq!(a, "the browser"),
        other => panic!("unexpected {}", intent_name(&other)),
    }
    assert!(matches!(classify_command("lock the screen"), Intent::LockScreen));
    assert!(matches!(classify_command("run security"), Intent::SecurityTest));
    assert!(matches!(classify_command("heartbeat"), Intent::RunAgent));
    assert!(matches!(classify_command("agent status"), Intent::AgentStatus));
    assert!(matches!(classify_command("louder"), Intent::Volume(VolumeChange::Up)));
    assert!(matches!(classify_command("turn down"), Intent::Volume(VolumeChange::Down)));
    assert!(matches!(classify_command("mute"), Intent::Volume(VolumeChange::MuteToggle)));
    assert!(matches!(classify_command("thanks a lot"), Intent::Reply(CannedReply::Welcome)));
    assert!(matches!(classify_command("hey there"), Intent::Reply(CannedReply::Greeting)));
    assert!(matches!(classify_command("good night"), Intent::Reply(CannedReply::GoodNight)));
    assert!(matches!(classify_command("be quiet"), Intent::Silent));
    assert!(matches!(classify_command("tell me a joke"), Intent::AskModel));
}

#[test]
fn earlier_checks_win() {
    // "find" comes before "open", and "start" would match "restart"
    match classify_command("find and open files") {
        Intent::Search(q) => assert_eq!(q, "and open files"),
        other => panic!("unexpected {}", intent_name(&other)),
    }
    match classify_command("please restart now") {
        Intent::OpenApp(a) => assert_eq!(a, "now"),
        other => panic!("unexpected {}", intent_name(&other)),
    }
}

#[test]
fn commands_are_lowercased_first() {
    assert!(matches!(parse_command("SYSTEM STATUS"), Intent::SystemStatus));
    match parse_command("Search For GPU") {
        Intent::Search(q) => assert_eq!(q, "gpu"),
        other => panic!("unexpected {}", intent_name(&other)),
    }
}

#[test]
fn canned_and_volume_texts() {
    assert_eq!(CannedReply::Welcome.text(), "You're welcome");
    assert_eq!(CannedReply::Greeting.text(), "Hello! How can I help you?");
    assert_eq!(CannedReply::GoodNight.text(), "Good night. Suspending in 5 seconds.");
    assert_eq!(VolumeChange::Up.pactl_args(), vec!["set-sink-volume", "@DEFAULT_SINK@", "5%+"]);
    assert_eq!(VolumeChange::MuteToggle.pactl_args(), vec!["set-sink-mute", "@DEFAULT_SINK@", "toggle"]);
    assert_eq!(VolumeChange::Down.reply(), "Volume down");
}

#[test]
fn app_names() {
    assert_eq!(app_command(" firefox "), "firefox");
    assert_eq!(app_command("web"), "firefox");
    assert_eq!(app_command("console"), "gnome-terminal");
    assert_eq!(app_command("file manager"), "nautilus");
    assert_eq!(app_command("vs code"), "code");
    assert_eq!(app_command("settings"), "gnome-control-center");
    assert_eq!(app_command("gimp"), "gimp");
    assert_eq!(launch_command("gimp"), "gimp &");
    assert_eq!(opening_reply("the browser"), "Opening the browser");
}

#[test]
fn replies() {
    assert_eq!(
        unknown_profile_reply(),
        "Unknown profile. Available: gpu-train, gpu-inference, cognitum-balanced, cognitum-idle"
    );
    assert_eq!(switch_reply("gpu-train", true), "Switched to gpu-train");
    assert_eq!(switch_reply("gpu-train", false), "Failed to switch to gpu-train");
    assert_eq!(security_reply(Some("[PASS] a\n[FAIL] b\n[PASS] c PASSPASS")), "4 of 6 security tests passed");
    assert_eq!(security_reply(None), "Security test not available");
    assert_eq!(run_agent_reply(true), "Agent heartbeat complete");
    assert_eq!(run_agent_reply(false), "Agent not available");
    assert_eq!(
        agent_status_reply(Some("ruos-agent v1\n  Avg score: 0.7\n  brain: OK\n  ruvllm: DOWN\n  Vectors: 5/10 (50%)\n")),
        "  Avg score: 0.7.   brain: OK.   Vectors: 5/10 (50%)"
    );
    assert_eq!(agent_status_reply(Some("nothing\n")), "Agent is running");
    assert_eq!(agent_status_reply(None), "Agent not available");
}

#[test]
fn system_status_parts() {
    let nm = "eth0:connected:Wired\nwlan0:wifi:connected:HomeNet\n";
    // The first line mentioning wifi splits into four fields; the third is the state.
    assert_eq!(
        system_status_reply(Some(612), Some("up 3 hours\n"), Some(nm)),
        "Brain has 612 memories. System up 3 hours. WiFi connected to connected"
    );
    assert_eq!(system_status_reply(None, None, None), "System is running");
    assert_eq!(system_status_reply(Some(-2), None, Some("wifi:x\n")), "Brain has -2 memories");
}

#[test]
fn recent_memories_reply() {
    let cats = vec!["gpu".to_string(), "session-learning".to_string()];
    assert_eq!(recent_reply(Some(&cats), 3), "Last 3 memories are in categories: gpu, session-learning");
    assert_eq!(recent_reply(Some(&cats), 0), "No recent memories");
    assert_eq!(recent_reply(None, 0), "Brain is not available");
}

#[test]
fn wake_word_steps() {
    assert_eq!(wake_step(false, false, "hey ruos please", "hey ruos"), (WakeStep::Activate, true));
    assert_eq!(wake_step(false, false, "ok jarvis", "hey ruos"), (WakeStep::Activate, true));
    assert_eq!(wake_step(false, false, "search for x", "hey ruos"), (WakeStep::Ignore, false));
    assert_eq!(wake_step(true, false, "search for x", "hey ruos"), (WakeStep::Dispatch, false));
    assert_eq!(wake_step(false, true, "search for x", "hey ruos"), (WakeStep::Dispatch, true));
    assert_eq!(wake_step(true, false, "", "hey ruos"), (WakeStep::Ignore, true));
}

#[test]
fn transcripts_and_speech() {
    assert_eq!(transcript_text("[00:00:00.000 --> 00:00:02.000]\n\n  hello there \nhow are you\n"), "hello there  how are you");
    assert_eq!(transcript_text("[BLANK_AUDIO]\n"), "");
    let w = whisper_commands("/home/u", "base", "/tmp/a.wav");
    assert_eq!(w[0], "whisper-cpp -t 2 -m /home/u/.local/share/whisper/ggml-base.bin -f /tmp/a.wav -np -nt");
    assert_eq!(w[1], "whisper-cpp -t 2 -m /usr/share/whisper-cpp/models/ggml-base.bin -f /tmp/a.wav -np -nt");
    assert!(mic_muted(true, None));
    assert!(mic_muted(false, Some("Mute: yes\n")));
    assert!(!mic_muted(false, Some("Mute: no\n")));
    assert_eq!(spoken_text(""), None);
    assert_eq!(spoken_text("hi"), Some("hi"));
    let long = "b".repeat(400);
    assert_eq!(spoken_text(&long).map(|s| s.len()), Some(300));
}

#[test]
fn lock_and_unlock() {
    assert!(matches!(classify_command("lock"), Intent::LockScreen));
    assert!(matches!(classify_command("unlock"), Intent::UnlockScreen));
    assert!(matches!(classify_command("unlock the screen"), Intent::UnlockScreen));
    assert!(matches!(parse_command("Lock"), Intent::LockScreen));
    assert!(matches!(classify_command("lock."), Intent::LockScreen));
    assert!(matches!(classify_command("please unlock it"), Intent::UnlockScreen));
    assert!(matches!(classify_command("what does the clock say"), Intent::AskModel));
    assert!(matches!(classify_command("block this site"), Intent::AskModel));
    assert!(matches!(classify_command("buy a padlock"), Intent::AskModel));
}

#[test]
fn switch_to_named_profile() {
    match classify_command("switch to gpu-train") {
        Intent::SwitchProfile(p) => assert_eq!(p, "gpu-train"),
        other => panic!("unexpected {}", intent_name(&other)),
    }
    match classify_command("switch to training") {
        Intent::SwitchProfile(p) => assert_eq!(p, "gpu-train"),
        other => panic!("unexpected {}", intent_name(&other)),
    }
    assert!(matches!(classify_command("switch to turbo"), Intent::AskModel));
    assert!(matches!(classify_command("switch to dark mode"), Intent::AskModel));
}

#[test]
fn extracted_text_is_trimmed() {
    assert_eq!(extract_after("search for   gpu  ", &["search for"]).as_deref(), Some("gpu"));
    assert_eq!(extract_after("search for   ", &["search for"]), None);
}
