//! Template data, breadcrumb paths, and flash-message folding.

use zero2prod::messages::{collect_messages, FlashMessage, Level};
use zero2prod::templates::{
    admin_dashboard, admin_newsletter, change_password, home, login, signup,
    AdminDashboardTemplate, ChangePasswordTemplate, HomeTemplate, LoginTemplate,
    SendNewsletterTemplate, SignupTemplate,
};

#[test]
fn breadcrumb_paths_lead_through_the_site() {
    let p = home::path();
    assert_eq!(p.len(), 1);
    assert_eq!(p[0].link, "/");
    assert_eq!(p[0].name, "Home");

    let p = login::path();
    assert_eq!(p.len(), 2);
    assert_eq!(p[0].link, "/");
    assert_eq!(p[1].link, "/login");
    assert_eq!(p[1].name, "Login");

    let p = signup::path();
    assert_eq!(p.len(), 2);
    assert_eq!(p[1].link, "/signup");
    assert_eq!(p[1].name, "Signup");

    let p = admin_dashboard::path();
    assert_eq!(p.len(), 1);
    assert_eq!(p[0].link, "/admin/dashboard");
    assert_eq!(p[0].name, "Dashboard");

    let p = admin_newsletter::path();
    assert_eq!(p.len(), 2);
    assert_eq!(p[0].link, "/admin/dashboard");
    assert_eq!(p[1].link, "/admin/newsletter");
    assert_eq!(p[1].name, "Publish newsletter");

    let p = change_password::path();
    assert_eq!(p.len(), 2);
    assert_eq!(p[1].link, "/admin/password");
    assert_eq!(p[1].name, "Change password");
}

#[test]
fn template_data_round_trips() {
    let t = LoginTemplate {
        error: "bad password",
        info: "",
    };
    assert_eq!(t.error, "bad password");
    let t = SignupTemplate {
        error: "",
        info: "welcome",
    };
    assert_eq!(t.info, "welcome");
    let _ = HomeTemplate;
    let t = AdminDashboardTemplate { username: "admin" };
    assert_eq!(t.username, "admin");
    let t = ChangePasswordTemplate {
        error: "",
        info: "",
    };
    assert_eq!(t.error, "");
    let t = SendNewsletterTemplate {
        error: "",
        info: "sent",
        idempotency_key: "abc-123",
    };
    assert_eq!(t.idempotency_key, "abc-123");
}

#[test]
fn flash_messages_fold_by_level() {
    let msgs = vec![
        FlashMessage {
            level: Level::Error,
            content: String::from("first error"),
        },
        FlashMessage {
            level: Level::Info,
            content: String::from("some info"),
        },
        FlashMessage {
            level: Level::Error,
            content: String::from("second error"),
        },
        FlashMessage {
            level: Level::Warning,
            content: String::from("a warning"),
        },
    ];
    assert_eq!(
        collect_messages(&msgs, Level::Error),
        "first error\nsecond error\n"
    );
    assert_eq!(collect_messages(&msgs, Level::Info), "some info\n");
    assert_eq!(collect_messages(&msgs, Level::Success), "");
    assert_eq!(collect_messages(&Vec::new(), Level::Error), "");
}
