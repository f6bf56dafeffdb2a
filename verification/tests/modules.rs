use wx_ilink_bot::modules::echo_module::EchoModule;
use wx_ilink_bot::modules::help_module::HelpModule;
use wx_ilink_bot::modules::nickname_module::NicknameModule;
use wx_ilink_bot::modules::notify_module::{NotifyModule, NotifyPlan};
use wx_ilink_bot::modules::query_module::QueryModule;
use wx_ilink_bot::modules::todo_module::TodoModule;
use wx_ilink_bot::modules::xhs_module::{sanitize_file_stem, XhsDelivery, XhsModule};
use wx_ilink_bot::nickname_store::NicknameStore;
use wx_ilink_bot::router::MatchType;
use wx_ilink_bot::session::ContextTokenStore;
use wx_ilink_bot::todo_store::TodoStore;
use wx_ilink_bot::xhs_client::{XhsClientConfig, XhsWork, XhsWorkKind};

fn s(x: &str) -> String {
    x.to_string()
}

#[test]
fn echo_repeats_the_text() {
    let m = EchoModule::new();
    assert_eq!(m.respond("回声 你好"), "你说的是: 回声 你好");
    let r = m.routes();
    assert_eq!(r.len(), 1);
    assert_eq!((r[0].name.as_str(), r[0].pattern.as_str()), ("echo", "回声"));
    assert_eq!(r[0].match_type, MatchType::Prefix);
    assert_eq!(m.name(), "EchoModule");
}

#[test]
fn query_answers_with_keyword() {
    let m = QueryModule::new();
    assert_eq!(m.respond("查询 天气"), "📋 查询结果:\n关于 '天气' 的查询结果...");
    assert_eq!(m.respond("查询"), "请输入查询关键词，例如: 查询 天气");
    assert_eq!(m.respond("查询 a查询b"), "📋 查询结果:\n关于 'ab' 的查询结果...");
}

#[test]
fn notify_forwards_to_named_user() {
    let m = NotifyModule::new();
    match m.plan("alice@im.wechat", "通知 bob@im.wechat 明天 开会") {
        NotifyPlan::Forward { target, message } => {
            assert_eq!(target, "bob@im.wechat");
            assert_eq!(message, "📢 来自 alice@im.wechat 的通知:\n明天 开会");
        },
        NotifyPlan::Usage(_) => panic!("a target and content were given"),
    }
    match m.plan("alice", "通知 bob") {
        NotifyPlan::Usage(u) => assert_eq!(u, "格式: 通知 <用户ID> <消息内容>"),
        _ => panic!("no content was given"),
    }
    assert_eq!(m.outcome_reply("bob", None), "✅ 已通知 bob");
    assert_eq!(m.outcome_reply("bob", Some("boom")), "❌ 通知失败: boom");
}

#[test]
fn notify_forwards_content_as_written() {
    let m = NotifyModule::new();
    match m.plan("a@im.wechat", "通知 b@im.wechat 收到通知请回复") {
        NotifyPlan::Forward { target, message } => {
            assert_eq!(target, "b@im.wechat");
            assert_eq!(message, "📢 来自 a@im.wechat 的通知:\n收到通知请回复");
        },
        NotifyPlan::Usage(_) => panic!("a target and content were given"),
    }
    match m.plan("a@im.wechat", "  通知  b@im.wechat x") {
        NotifyPlan::Forward { target, message } => {
            assert_eq!(target, "b@im.wechat");
            assert_eq!(message, "📢 来自 a@im.wechat 的通知:\nx");
        },
        NotifyPlan::Usage(_) => panic!("a target and content were given"),
    }
}

#[test]
fn help_lists_commands_sorted_once() {
    let m = HelpModule::new(vec![("b", "second"), ("a", "first"), ("b", "again")]);
    assert_eq!(m.respond(), "🤖 可用命令:\n\n  a — first\n  b — again\n\n发送对应命令即可使用");
    let empty = HelpModule::new(vec![]);
    assert_eq!(empty.respond(), "🤖 可用命令:\n\n\n发送对应命令即可使用");
}

#[test]
fn nickname_set_taken_and_shown() {
    let m = NicknameModule::new();
    let mut store = NicknameStore::new();
    let ctx = ContextTokenStore::new();
    assert_eq!(m.respond(&mut store, &ctx, "u1@im.wechat", "叫我 大王"), Some(s("✅ 好的，以后叫你「大王」")));
    assert_eq!(store.get("u1@im.wechat"), Some(s("大王")));
    assert_eq!(
        m.respond(&mut store, &ctx, "u2@im.wechat", "叫我大王"),
        Some(s("昵称「大王」已被其他用户使用，请换一个"))
    );
    assert_eq!(store.get("u2@im.wechat"), None);
    assert_eq!(m.respond(&mut store, &ctx, "u1@im.wechat", "叫我"), Some(s("请告诉我你的昵称，例如: 叫我大王")));
    let long = format!("叫我 {}", "字".repeat(21));
    assert_eq!(m.respond(&mut store, &ctx, "u1@im.wechat", &long), Some(s("昵称太长了，请控制在 20 个字以内")));
    assert_eq!(
        m.respond(&mut store, &ctx, "u1@im.wechat", "我是谁"),
        Some(s("你的昵称是「大王」\n\n发送「叫我 <新昵称>」可以修改"))
    );
    assert_eq!(
        m.respond(&mut store, &ctx, "abcdefgh1234@im.wechat", " 我是谁 "),
        Some(s("你还没有设置昵称，当前显示为「用户_abcd…1234」\n\n发送「叫我 <昵称>」来设置"))
    );
    assert_eq!(m.respond(&mut store, &ctx, "u1@im.wechat", "随便说说"), None);
}

#[test]
fn user_list_shows_everyone_once_in_order() {
    let m = NicknameModule::new();
    let mut store = NicknameStore::new();
    let mut ctx = ContextTokenStore::new();
    assert_eq!(m.respond(&mut store, &ctx, "x", "用户列表"), Some(s("📭 当前没有已连接的用户")));
    ctx.set("b@im.bot", "zed@im.wechat", "t");
    ctx.set("a@im.bot", "amy@im.wechat", "t");
    ctx.set("b@im.bot", "amy@im.wechat", "t");
    store.set("amy@im.wechat", "艾米");
    assert_eq!(
        m.respond(&mut store, &ctx, "x", "用户列表"),
        Some(s("👥 当前用户 (2人):\n1. 艾米\n2. 用户_zed (未设昵称)"))
    );
}

#[test]
fn todo_flow() {
    let m = TodoModule::new();
    let mut store = TodoStore::new();
    let u = "u@im.wechat";
    assert_eq!(m.respond(&mut store, u, "待办列表"), Some(s("📋 你还没有任何待办\n\n发送「待办 <内容>」添加")));
    assert_eq!(m.respond(&mut store, u, "待办 买牛奶"), Some(s("✅ 待办已添加:\n#1 买牛奶")));
    assert_eq!(m.respond(&mut store, u, "todo Write report"), Some(s("✅ 待办已添加:\n#2 Write report")));
    assert_eq!(m.respond(&mut store, u, "TODO LIST"), Some(s("📋 你的待办 (2项):\n1. ⬜ 买牛奶\n2. ⬜ Write report")));
    assert_eq!(m.respond(&mut store, u, "完成 #1"), Some(s("✅ 已完成: #1 买牛奶")));
    assert_eq!(m.respond(&mut store, u, "完成 1"), Some(s("未找到编号 #1 的未完成待办")));
    assert_eq!(
        m.respond(&mut store, u, "待办列表"),
        Some(s("📋 你的待办 (1项):\n2. ⬜ Write report\n\n✅ 已完成 1 项（发送「所有待办」查看）"))
    );
    assert_eq!(
        m.respond(&mut store, u, "所有待办"),
        Some(s("📋 所有待办 (1项未完成, 1项已完成):\n1. ✅ 买牛奶\n2. ⬜ Write report"))
    );
    assert_eq!(m.respond(&mut store, u, "清空已完成"), Some(s("🗑️ 已清空 1 条已完成的待办")));
    assert_eq!(m.respond(&mut store, u, "清空已完成"), Some(s("没有已完成的待办需要清理")));
    assert_eq!(m.respond(&mut store, u, "删除待办 2"), Some(s("🗑️ 已删除: #2 Write report")));
    assert_eq!(m.respond(&mut store, u, "删除待办 2"), Some(s("未找到编号 #2 的待办")));
    assert_eq!(m.respond(&mut store, u, "删除待办 abc"), Some(s("请输入待办编号，例如: 删除待办 1")));
    assert_eq!(m.respond(&mut store, u, "done x"), Some(s("请输入待办编号，例如: 完成 1")));
    // Numbers keep counting after deletions.
    assert_eq!(m.respond(&mut store, u, "待办 再来"), Some(s("✅ 待办已添加:\n#3 再来")));
    assert_eq!(m.respond(&mut store, u, "待办"), Some(s("请输入待办内容，例如: 待办 明天下午3点开会")));
    let long = format!("待办 {}", "a".repeat(501));
    assert_eq!(m.respond(&mut store, u, &long), Some(s("待办内容太长了，请控制在 500 字以内")));
    assert_eq!(m.respond(&mut store, u, "你好"), None);
}

#[test]
fn todo_routes() {
    let r = TodoModule::new().routes();
    let names: Vec<&str> = r.iter().map(|x| x.name.as_str()).collect();
    assert_eq!(
        names,
        vec!["todo_add", "todo_add_en", "todo_complete", "todo_complete_en", "todo_delete", "todo_all", "todo_clear"]
    );
}

#[test]
fn file_stems_are_sanitized() {
    assert_eq!(sanitize_file_stem("abc/def 1"), "abc_def_1");
    assert_eq!(sanitize_file_stem("a-b_c"), "a-b_c");
    assert_eq!(sanitize_file_stem("中文"), "__");
    assert_eq!(sanitize_file_stem(""), "xhs");
}

fn work(kind: XhsWorkKind, urls: Vec<&str>) -> XhsWork {
    XhsWork {
        title: s("标题"),
        note_id: s("n/1"),
        work_type: s("图文"),
        media_urls: urls.into_iter().map(s).collect(),
        kind,
    }
}

#[test]
fn xhs_delivery_and_names() {
    let m = XhsModule::new(XhsClientConfig::new(s("http://127.0.0.1:5556/"), s(""), s(""), 10));
    assert_eq!(m.client.api_base_url, "http://127.0.0.1:5556");
    assert_eq!(m.client.api_timeout_ms, 1000);
    match m.delivery(&work(XhsWorkKind::ImageSet, vec!["https://a/1.jpg", "https://a/2.jpg"])) {
        XhsDelivery::Images { intro } => {
            assert_eq!(intro, "已解析到小红书图文《标题》，共 2 张图片，开始回传无水印原图。")
        },
        _ => panic!("an image set is sent as images"),
    }
    match m.delivery(&work(XhsWorkKind::Video, vec!["https://a/v.mp4"])) {
        XhsDelivery::Video { intro, url } => {
            assert_eq!(intro, "已解析到小红书视频《标题》，开始回传无水印视频。");
            assert_eq!(url, "https://a/v.mp4");
        },
        _ => panic!("a video is sent as a video"),
    }
    assert!(matches!(m.delivery(&work(XhsWorkKind::Video, vec![])), XhsDelivery::NoVideo(_)));
    match m.delivery(&work(XhsWorkKind::Unknown, vec!["x"])) {
        XhsDelivery::Unsupported(t) => assert_eq!(t, "当前作品类型暂不支持处理。"),
        _ => panic!("unknown kinds are not sent"),
    }
    assert_eq!(m.image_file_name("n/1", 0, "jpg"), "xhs_n_1_1.jpg");
    assert_eq!(m.video_file_name("", "mp4"), "xhs_xhs.mp4");
    assert_eq!(m.image_summary(0, 3), "图片下载或发送失败，请稍后重试。");
    assert_eq!(m.image_summary(3, 3), "已发送完成，共返回 3 张无水印图片。");
    assert_eq!(m.image_summary(2, 3), "已返回 2/3 张图片，部分图片处理失败。");
    assert_eq!(m.image_summary_of(&vec![true, false, true]), "已返回 2/3 张图片，部分图片处理失败。");
    assert_eq!(m.image_summary_of(&vec![true, true]), "已发送完成，共返回 2 张无水印图片。");
    assert_eq!(m.image_summary_of(&vec![false, false]), "图片下载或发送失败，请稍后重试。");
    assert_eq!(m.image_summary_of(&vec![]), "图片下载或发送失败，请稍后重试。");
    assert_eq!(m.video_summary(true), "视频已作为文件发送完成。");
    assert_eq!(m.fetch_failed_reply("x"), "解析小红书链接失败: x");
    assert_eq!(m.no_link_reply(), "未识别到有效的小红书链接，请重新发送。");
}

#[test]
fn todo_store_written_only_on_change() {
    let m = TodoModule::new();
    let mut store = TodoStore::new();
    let u = "u@im.wechat";
    assert_eq!(m.respond_and_report(&mut store, u, "清空已完成"), (Some(s("没有已完成的待办需要清理")), false));
    assert_eq!(m.respond_and_report(&mut store, u, "待办"), (Some(s("请输入待办内容，例如: 待办 明天下午3点开会")), false));
    assert_eq!(m.respond_and_report(&mut store, u, "待办 买牛奶"), (Some(s("✅ 待办已添加:\n#1 买牛奶")), true));
    assert_eq!(m.respond_and_report(&mut store, u, "待办列表").1, false);
    assert_eq!(m.respond_and_report(&mut store, u, "完成 x"), (Some(s("请输入待办编号，例如: 完成 1")), false));
    assert_eq!(m.respond_and_report(&mut store, u, "完成 2"), (Some(s("未找到编号 #2 的未完成待办")), false));
    assert_eq!(m.respond_and_report(&mut store, u, "完成 1"), (Some(s("✅ 已完成: #1 买牛奶")), true));
    assert_eq!(m.respond_and_report(&mut store, u, "完成 1").1, false);
    assert_eq!(m.respond_and_report(&mut store, u, "删除待办 9"), (Some(s("未找到编号 #9 的待办")), false));
    assert_eq!(m.respond_and_report(&mut store, u, "清空已完成"), (Some(s("🗑️ 已清空 1 条已完成的待办")), true));
    assert_eq!(m.respond_and_report(&mut store, u, "清空已完成").1, false);
    assert_eq!(m.respond_and_report(&mut store, u, "待办 b").1, true);
    assert_eq!(m.respond_and_report(&mut store, u, "删除待办 2"), (Some(s("🗑️ 已删除: #2 b")), true));
    assert_eq!(m.respond_and_report(&mut store, u, "hello"), (None, false));
}

#[test]
fn nickname_written_only_when_set() {
    let m = NicknameModule::new();
    let mut store = NicknameStore::new();
    let ctx = ContextTokenStore::new();
    assert_eq!(m.respond_and_report(&mut store, &ctx, "u1@im.wechat", "叫我 大王"), (Some(s("✅ 好的，以后叫你「大王」")), true));
    assert_eq!(
        m.respond_and_report(&mut store, &ctx, "u2@im.wechat", "叫我大王"),
        (Some(s("昵称「大王」已被其他用户使用，请换一个")), false)
    );
    assert_eq!(m.respond_and_report(&mut store, &ctx, "u2@im.wechat", "叫我").1, false);
    assert_eq!(m.respond_and_report(&mut store, &ctx, "u1@im.wechat", "我是谁").1, false);
    assert_eq!(m.respond_and_report(&mut store, &ctx, "u1@im.wechat", "叫我 大王").1, true);
    assert_eq!(m.respond_and_report(&mut store, &ctx, "u1@im.wechat", "你好"), (None, false));
}
