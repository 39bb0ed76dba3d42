//! The status bar.

use super::bluetooth::{self, push_nonce};
use super::state::{AppState, AppView, ConnState};
use crate::text;
use vstd::prelude::*;

verus! {

/// What the status bar shows.
pub struct StatusPanel {
    /// Class and text of the connection pill.
    pub conn_class: String,
    pub conn_label: String,
    pub battery: String,
    pub session: String,
    pub frame_seq: String,
    /// Class, description and text of the connect button, and whether it is out of
    /// use.
    pub button_class: String,
    pub button_aria: String,
    pub button_text: String,
    pub button_disabled: bool,
}

/// What the battery cell shows.
pub open spec fn battery_text(battery: Option<u8>) -> Seq<char> {
    match battery {
        Some(p) => text::decimal(p as nat) + "%"@,
        None => "--"@,
    }
}

/// What the session cell shows.
pub open spec fn session_text(nonce: Option<u32>) -> Seq<char> {
    match nonce {
        Some(n) => bluetooth::nonce_text(n),
        None => "等待中"@,
    }
}

/// What the connect button says.
pub open spec fn button_text(conn: ConnState) -> Seq<char> {
    match conn {
        ConnState::Disconnected => "连接手柄"@,
        ConnState::Connecting => "连接中..."@,
        ConnState::Connected => "断开连接"@,
    }
}

impl StatusPanel {
    /// The bar shows this state of the dashboard.
    pub open spec fn shows(self, app: AppView) -> bool {
        &&& self.conn_class@ == "conn-pill "@ + app.conn.css_text()
        &&& self.conn_label@ == app.conn.label_text()
        &&& self.battery@ == battery_text(app.battery)
        &&& self.session@ == session_text(app.session_nonce)
        &&& self.frame_seq@ == text::decimal(app.last_frame_seq as nat)
        &&& self.button_class@ == "connect-btn "@ + (if app.conn is Connected {
            "connect-btn-active"@
        } else {
            ""@
        })
        &&& self.button_aria@ == (if app.conn is Connected {
            "断开手柄连接"@
        } else {
            "连接手柄"@
        })
        &&& self.button_text@ == button_text(app.conn)
        &&& self.button_disabled == (app.conn is Connecting)
    }

    /// The status bar of a dashboard.
    pub fn new(app: &AppState) -> (p: StatusPanel)
        ensures
            p.shows(app@),
    {
        let mut conn_class = String::new();
        conn_class.append("conn-pill ");
        conn_class.append(app.conn.css_state());
        assert(conn_class@ =~= "conn-pill "@ + app.conn.css_text());
        let mut battery = String::new();
        match app.battery {
            Some(p) => {
                text::push_decimal(&mut battery, p as u64);
                battery.append("%");
            },
            None => {
                battery.append("--");
            },
        }
        assert(battery@ =~= battery_text(app.battery));
        let mut session = String::new();
        match app.session_nonce {
            Some(n) => {
                push_nonce(&mut session, n);
            },
            None => {
                session.append("等待中");
            },
        }
        assert(session@ =~= session_text(app.session_nonce));
        let mut button_class = String::new();
        button_class.append("connect-btn ");
        let (button_aria, label) = match app.conn {
            ConnState::Connected => {
                button_class.append("connect-btn-active");
                ("断开手柄连接".to_string(), "断开连接".to_string())
            },
            ConnState::Connecting => ("连接手柄".to_string(), "连接中...".to_string()),
            ConnState::Disconnected => ("连接手柄".to_string(), "连接手柄".to_string()),
        };
        proof {
            reveal_strlit("");
        }
        assert(button_class@ =~= "connect-btn "@ + (if app.conn is Connected {
            "connect-btn-active"@
        } else {
            ""@
        }));
        StatusPanel {
            conn_class,
            conn_label: app.conn.label().to_string(),
            battery,
            session,
            frame_seq: text::decimal_text(app.last_frame_seq as u64),
            button_class,
            button_aria,
            button_text: label,
            button_disabled: app.conn == ConnState::Connecting,
        }
    }
}

/// What a click on the connect button asks for.
#[derive(Debug, Clone, Copy, PartialEq, Eq, Structural)]
pub enum ConnectAction {
    Connect,
    Disconnect,
}

/// A click on the connect button.
pub fn on_connect_click(conn: ConnState) -> (a: ConnectAction)
    ensures
        a == (if conn is Connected {
            ConnectAction::Disconnect
        } else {
            ConnectAction::Connect
        }),
{
    match conn {
        ConnState::Connected => ConnectAction::Disconnect,
        _ => ConnectAction::Connect,
    }
}

// ---- Laws ----

/// The battery cell shows the reported percentage, and dashes before there is one.
pub proof fn lemma_battery_cell_shows_the_percentage(battery: Option<u8>)
    ensures
        battery is None ==> battery_text(battery) == "--"@,
        battery is Some ==> battery_text(battery).last() == '%' && text::number_of(
            battery_text(battery).drop_last(),
            10,
        ) == battery->0,
{
    reveal_strlit("%");
    if battery is Some {
        text::lemma_decimal_reads_back(battery->0 as nat);
        assert(battery_text(battery).drop_last() =~= text::decimal(battery->0 as nat));
    }
}

/// The bar shows the number of the newest frame, and its button is out of use exactly
/// while a connection is being made.
pub proof fn lemma_bar_shows_the_newest_frame(p: StatusPanel, app: AppView)
    requires
        p.shows(app),
    ensures
        text::number_of(p.frame_seq@, 10) == app.last_frame_seq,
        p.button_disabled <==> app.conn == ConnState::Connecting,
        app.conn == ConnState::Disconnected ==> p.button_text@ == "连接手柄"@,
        app.conn == ConnState::Connecting ==> p.button_text@ == "连接中..."@,
        app.conn == ConnState::Connected ==> p.button_text@ == "断开连接"@,
{
    text::lemma_decimal_reads_back(app.last_frame_seq as nat);
}

} // verus!
