use twitch_music_bot::chat::{
    classify_command, compose_chat_message, download_announcement, download_link_reply, download_page_url,
    download_used_notice, helix_step, join_args, parse_command, queue_page_url, truncate_title, user_from_chat,
    ChatAction, DownloadLinkReply, HelixStep,
};
use twitch_music_bot::model::TwitchUser;

fn viewer() -> TwitchUser {
    user_from_chat("42", "viewer", "Viewer", &vec![])
}

#[test]
fn parses_a_song_request() {
    let c = parse_command("mychannel", &viewer(), "!sr never gonna give you up").unwrap();
    assert_eq!(c.command, "sr");
    assert_eq!(c.args, vec!["never", "gonna", "give", "you", "up"]);
    assert_eq!(c.raw_message, "!sr never gonna give you up");
    assert_eq!(c.user.login, "viewer");
}

#[test]
fn trims_lowercases_and_splits_on_any_whitespace() {
    let c = parse_command("mychannel", &viewer(), "  !SR   hello \t world  ").unwrap();
    assert_eq!(c.command, "sr");
    assert_eq!(c.args, vec!["hello", "world"]);
    assert_eq!(c.raw_message, "!SR   hello \t world");
}

#[test]
fn strips_every_leading_bang() {
    let c = parse_command("mychannel", &viewer(), "!!Skip").unwrap();
    assert_eq!(c.command, "skip");
    assert!(c.args.is_empty());
}

#[test]
fn ignores_plain_messages() {
    assert!(parse_command("mychannel", &viewer(), "hello there").is_none());
    assert!(parse_command("mychannel", &viewer(), "   ").is_none());
    assert!(parse_command("mychannel", &viewer(), "sr !song").is_none());
}

#[test]
fn ignores_commands_for_other_bots() {
    assert!(parse_command("mychannel", &viewer(), "!sr@nightbot some song").is_none());
    let own = parse_command("mychannel", &viewer(), "!sr@MyChannel some song").unwrap();
    assert_eq!(own.command, "sr@mychannel");
    assert_eq!(own.args, vec!["some", "song"]);
    assert!(parse_command("mychannel", &viewer(), "!queue@TMI.JS").is_some());
}

#[test]
fn a_lone_bang_is_an_empty_command() {
    let c = parse_command("mychannel", &viewer(), "!").unwrap();
    assert_eq!(c.command, "");
    assert!(c.args.is_empty());
}

#[test]
fn classifies_commands() {
    assert_eq!(classify_command("sr"), ChatAction::SongRequest);
    assert_eq!(classify_command("songrequest"), ChatAction::SongRequest);
    assert_eq!(classify_command("playsong"), ChatAction::SongRequest);
    assert_eq!(classify_command("skip"), ChatAction::VoteSkip);
    assert_eq!(classify_command("voteskip"), ChatAction::VoteSkip);
    assert_eq!(classify_command("queue"), ChatAction::ShowQueue);
    assert_eq!(classify_command("songs"), ChatAction::ShowQueue);
    assert_eq!(classify_command("downloadlink"), ChatAction::DownloadLink);
    assert_eq!(classify_command("dl"), ChatAction::DownloadLink);
    assert_eq!(classify_command("SR"), ChatAction::Ignore);
    assert_eq!(classify_command("hello"), ChatAction::Ignore);
}

#[test]
fn joins_arguments_with_spaces() {
    assert_eq!(join_args(&vec!["a".to_string(), "b c".to_string(), "d".to_string()]), "a b c d");
    assert_eq!(join_args(&vec![]), "");
    assert_eq!(join_args(&vec!["solo".to_string()]), "solo");
}

#[test]
fn badges_give_roles() {
    let u = user_from_chat(
        "7",
        "modname",
        "ModName",
        &vec!["subscriber".to_string(), "moderator".to_string()],
    );
    assert_eq!(u.id, "7");
    assert_eq!(u.twitch_user_id, "7");
    assert_eq!(u.login, "modname");
    assert_eq!(u.display_name, "ModName");
    assert!(u.is_mod && u.is_sub && !u.is_vip);
    let v = user_from_chat("8", "v", "V", &vec!["vip".to_string(), "Moderator".to_string()]);
    assert!(!v.is_mod && !v.is_sub && v.is_vip);
}

#[test]
fn long_titles_are_cut_to_sixty_characters() {
    let short = "a".repeat(60);
    assert_eq!(truncate_title(&short), short);
    let long = "b".repeat(61);
    let t = truncate_title(&long);
    assert_eq!(t, format!("{}...", "b".repeat(57)));
    assert_eq!(t.chars().count(), 60);
    let wide = "é".repeat(70);
    assert_eq!(truncate_title(&wide), format!("{}...", "é".repeat(57)));
}

#[test]
fn chat_messages_join_two_parts() {
    assert_eq!(compose_chat_message("Download 'x':", "https://a/dl/c").unwrap(), "Download 'x': https://a/dl/c");
    assert_eq!(compose_chat_message("only", "").unwrap(), "only");
    assert_eq!(compose_chat_message("", "second").unwrap(), "second");
    assert!(compose_chat_message("", "").is_none());
}

#[test]
fn page_urls() {
    let fe = "https://music.example".to_string();
    assert_eq!(queue_page_url(&fe, "abc"), "https://music.example/queue/abc");
    assert_eq!(download_page_url(&fe, "code1"), "https://music.example/dl/code1");
}

#[test]
fn download_link_decisions() {
    assert_eq!(download_link_reply(false, None, 100), DownloadLinkReply::NothingPlaying);
    assert_eq!(download_link_reply(false, Some(200), 100), DownloadLinkReply::NothingPlaying);
    assert_eq!(download_link_reply(true, Some(200), 100), DownloadLinkReply::ReuseLink);
    assert_eq!(download_link_reply(true, Some(100), 100), DownloadLinkReply::AlreadyUsedToday);
    assert_eq!(download_link_reply(true, None, 100), DownloadLinkReply::CreateLink);
}

#[test]
fn download_texts() {
    assert_eq!(download_announcement("Song"), "Download 'Song':");
    assert_eq!(
        download_used_notice("Song"),
        "A download link for 'Song' was already used today - try again tomorrow."
    );
    let long = "c".repeat(80);
    assert_eq!(download_announcement(&long), format!("Download '{}...':", "c".repeat(57)));
}

#[test]
fn helix_replies() {
    assert_eq!(helix_step(200, false), HelixStep::Done);
    assert_eq!(helix_step(204, true), HelixStep::Done);
    assert_eq!(helix_step(401, false), HelixStep::RefreshAndRetry);
    assert_eq!(helix_step(401, true), HelixStep::Failed);
    assert_eq!(helix_step(500, false), HelixStep::Failed);
    assert_eq!(helix_step(403, false), HelixStep::Failed);
}
