//! QR-code login: what each status report of a login QR code leads to, until
//! a user confirms, the code expires too often, or time runs out.
use crate::api::{QRCodeResponse, QRCodeStatusResponse};
use vstd::prelude::*;

verus! {

/// QR codes that may expire in one login round before it gives up.
pub const MAX_QR_REFRESH: usize = 3;

/// How long one login round waits for a scan, in seconds.
pub const QR_TIMEOUT_S: u64 = 480;

/// The outcome of a login round.
#[derive(Debug, Clone)]
pub struct ScanResult {
    pub success: bool,
    /// The bot token (`""` unless confirmed).
    pub bot_token: String,
    /// The account id (`…@im.bot`).
    pub account_id: String,
    /// The base URL the account talks to.
    pub base_url: String,
    /// The user who scanned (`…@im.wechat`).
    pub user_id: String,
    pub error: Option<String>,
}

/// What an administrator can see of the current QR code.
#[derive(Debug, Clone)]
pub struct QRCodeInfo {
    pub qrcode: String,
    pub qrcode_img_url: String,
    /// `waiting`, `scaned` or `confirmed`.
    pub status: String,
    /// The user who confirmed, once one did.
    pub confirmed_user_id: Option<String>,
}

/// The state of a login round.
pub struct ScanState {
    /// QR codes that expired so far.
    pub refresh_count: usize,
    /// The code being polled.
    pub qrcode: String,
    pub qrcode_url: String,
    /// Where its status is asked for (moves on an IDC redirect).
    pub base_url: String,
    /// What is shown of the current code, if anything.
    pub current_qr: Option<QRCodeInfo>,
}

/// What the login round does next.
pub enum ScanAction {
    /// Sleep a second and ask again.
    Wait,
    /// Fetch a new QR code and hand it to `qr_refreshed`.
    RefreshQr,
    /// The round is over.
    Finish(ScanResult),
}

/// A status report's status, `wait` when it has none.
pub open spec fn status_of(resp: QRCodeStatusResponse) -> Seq<char> {
    match resp.status {
        Some(s) => s@,
        None => "wait"@,
    }
}

/// An optional text, or `""`.
pub open spec fn or_empty(s: Option<String>) -> Seq<char> {
    match s {
        Some(t) => t@,
        None => Seq::empty(),
    }
}

/// What is shown of a code that is `status`.
pub open spec fn shows(qr: Option<QRCodeInfo>, qrcode: Seq<char>, url: Seq<char>, status: Seq<char>) -> bool {
    qr matches Some(i) && i.qrcode@ == qrcode && i.qrcode_img_url@ == url && i.status@ == status
        && i.confirmed_user_id is None
}

/// A round that failed with `error`.
pub open spec fn failed_scan(r: ScanResult, error: Seq<char>) -> bool {
    &&& !r.success
    &&& r.bot_token@.len() == 0 && r.account_id@.len() == 0
    &&& r.base_url@.len() == 0 && r.user_id@.len() == 0
    &&& r.error matches Some(e) && e@ == error
}

/// The text of an optional string, or `""`.
fn text_or_empty(s: &Option<String>) -> (r: String)
    ensures
        r@ == or_empty(*s),
{
    match s {
        Some(t) => t.clone(),
        None => String::new(),
    }
}

fn failed(error: &str) -> (r: ScanResult)
    ensures
        failed_scan(r, error@),
{
    ScanResult {
        success: false,
        bot_token: String::new(),
        account_id: String::new(),
        base_url: String::new(),
        user_id: String::new(),
        error: Some(String::from_str(error)),
    }
}

fn waiting_info(qrcode: &String, url: &String) -> (r: QRCodeInfo)
    ensures
        shows(Some(r), qrcode@, url@, "waiting"@),
{
    QRCodeInfo {
        qrcode: qrcode.clone(),
        qrcode_img_url: url.clone(),
        status: String::from_str("waiting"),
        confirmed_user_id: None,
    }
}

/// Two views of a QR code agree on everything shown.
pub open spec fn same_info(a: QRCodeInfo, b: QRCodeInfo) -> bool {
    &&& a.qrcode@ == b.qrcode@
    &&& a.qrcode_img_url@ == b.qrcode_img_url@
    &&& a.status@ == b.status@
    &&& match (a.confirmed_user_id, b.confirmed_user_id) {
        (Some(x), Some(y)) => x@ == y@,
        (None, None) => true,
        _ => false,
    }
}

impl ScanState {
    /// A copy of what is shown of the current QR code, if anything.
    pub fn get_current_qr(&self) -> (r: Option<QRCodeInfo>)
        ensures
            r is Some <==> self.current_qr is Some,
            r matches Some(a) ==> same_info(a, self.current_qr->0),
    {
        match &self.current_qr {
            Some(info) => Some(
                QRCodeInfo {
                    qrcode: info.qrcode.clone(),
                    qrcode_img_url: info.qrcode_img_url.clone(),
                    status: info.status.clone(),
                    confirmed_user_id: match &info.confirmed_user_id {
                        Some(u) => Some(u.clone()),
                        None => None,
                    },
                },
            ),
            None => None,
        }
    }

    /// A round that starts with the QR code `qr`, asking `base_url`.
    pub fn start(base_url: &str, qr: &QRCodeResponse) -> (r: ScanState)
        ensures
            r.refresh_count == 0,
            r.qrcode@ == or_empty(qr.qrcode),
            r.qrcode_url@ == or_empty(qr.qrcode_img_content),
            r.base_url@ == base_url@,
            shows(r.current_qr, r.qrcode@, r.qrcode_url@, "waiting"@),
    {
        let qrcode = text_or_empty(&qr.qrcode);
        let url = text_or_empty(&qr.qrcode_img_content);
        let info = waiting_info(&qrcode, &url);
        ScanState {
            refresh_count: 0,
            qrcode,
            qrcode_url: url,
            base_url: String::from_str(base_url),
            current_qr: Some(info),
        }
    }

    /// Takes in a status report of the current code.
    ///
    /// `wait` and unknown statuses change nothing; `scaned` shows the code as
    /// scanned; `scaned_but_redirect` moves the round to the redirect host;
    /// `expired` asks for a new code, or gives up once the maximum of codes
    /// expired; `confirmed` ends the round with the new account.
    pub fn on_status(&mut self, resp: &QRCodeStatusResponse) -> (r: ScanAction)
        requires
            old(self).refresh_count < MAX_QR_REFRESH,
        ensures
            final(self).qrcode == old(self).qrcode,
            final(self).qrcode_url == old(self).qrcode_url,
            !(r is Finish) ==> final(self).refresh_count < MAX_QR_REFRESH,
            status_of(*resp) == "scaned"@ ==> {
                &&& r is Wait
                &&& final(self).refresh_count == old(self).refresh_count
                &&& final(self).base_url == old(self).base_url
                &&& shows(final(self).current_qr, old(self).qrcode@, old(self).qrcode_url@, "scaned"@)
            },
            status_of(*resp) == "scaned_but_redirect"@ ==> {
                &&& r is Wait
                &&& final(self).refresh_count == old(self).refresh_count
                &&& final(self).current_qr == old(self).current_qr
                &&& final(self).base_url@ == match resp.redirect_host {
                    Some(h) => "https://"@ + h@,
                    None => old(self).base_url@,
                }
            },
            status_of(*resp) == "expired"@ ==> {
                &&& final(self).refresh_count == old(self).refresh_count + 1
                &&& final(self).base_url == old(self).base_url
                &&& if old(self).refresh_count + 1 >= MAX_QR_REFRESH {
                    &&& r matches ScanAction::Finish(s) && failed_scan(s, "二维码多次过期"@)
                    &&& final(self).current_qr is None
                } else {
                    r is RefreshQr && final(self).current_qr == old(self).current_qr
                }
            },
            status_of(*resp) == "confirmed"@ ==> {
                &&& final(self).refresh_count == old(self).refresh_count
                &&& final(self).base_url == old(self).base_url
                &&& r matches ScanAction::Finish(s) && {
                    &&& s.success
                    &&& s.bot_token@ == or_empty(resp.bot_token)
                    &&& s.account_id@ == or_empty(resp.ilink_bot_id)
                    &&& s.base_url@ == match resp.baseurl {
                        Some(b) => b@,
                        None => old(self).base_url@,
                    }
                    &&& s.user_id@ == or_empty(resp.ilink_user_id)
                    &&& s.error is None
                }
                &&& match old(self).current_qr {
                    Some(i) => (final(self).current_qr matches Some(j) && j.qrcode == i.qrcode
                        && j.qrcode_img_url == i.qrcode_img_url && j.status@ == "confirmed"@
                        && j.confirmed_user_id is Some && j.confirmed_user_id.unwrap()@ == or_empty(resp.ilink_user_id)),
                    None => final(self).current_qr is None,
                }
            },
            status_of(*resp) != "scaned"@ && status_of(*resp) != "scaned_but_redirect"@ && status_of(*resp)
                != "expired"@ && status_of(*resp) != "confirmed"@ ==> {
                &&& r is Wait
                &&& final(self).refresh_count == old(self).refresh_count
                &&& final(self).base_url == old(self).base_url
                &&& final(self).current_qr == old(self).current_qr
            },
    {
        proof {
            reveal_strlit("scaned");
            reveal_strlit("scaned_but_redirect");
            reveal_strlit("expired");
            reveal_strlit("confirmed");
            assert("scaned"@.len() == 6);
            assert("expired"@.len() == 7);
            assert("confirmed"@.len() == 9);
            assert("scaned_but_redirect"@.len() == 19);
        }
        let status = match &resp.status {
            Some(s) => crate::text::chars_of(s.as_str()),
            None => crate::text::chars_of("wait"),
        };
        if crate::text::chars_eq(&status, &crate::text::chars_of("scaned")) {
            self.current_qr = Some(
                QRCodeInfo {
                    qrcode: self.qrcode.clone(),
                    qrcode_img_url: self.qrcode_url.clone(),
                    status: String::from_str("scaned"),
                    confirmed_user_id: None,
                },
            );
            ScanAction::Wait
        } else if crate::text::chars_eq(&status, &crate::text::chars_of("scaned_but_redirect")) {
            match &resp.redirect_host {
                Some(h) => {
                    let mut u = String::from_str("https://");
                    u.append(h.as_str());
                    self.base_url = u;
                },
                None => {},
            }
            ScanAction::Wait
        } else if crate::text::chars_eq(&status, &crate::text::chars_of("expired")) {
            self.refresh_count = self.refresh_count + 1;
            if self.refresh_count >= MAX_QR_REFRESH {
                self.current_qr = None;
                ScanAction::Finish(failed("二维码多次过期"))
            } else {
                ScanAction::RefreshQr
            }
        } else if crate::text::chars_eq(&status, &crate::text::chars_of("confirmed")) {
            let user_id = text_or_empty(&resp.ilink_user_id);
            match &mut self.current_qr {
                Some(info) => {
                    info.status = String::from_str("confirmed");
                    info.confirmed_user_id = Some(user_id.clone());
                },
                None => {},
            }
            let base_url = match &resp.baseurl {
                Some(b) => b.clone(),
                None => self.base_url.clone(),
            };
            ScanAction::Finish(
                ScanResult {
                    success: true,
                    bot_token: text_or_empty(&resp.bot_token),
                    account_id: text_or_empty(&resp.ilink_bot_id),
                    base_url,
                    user_id,
                    error: None,
                },
            )
        } else {
            ScanAction::Wait
        }
    }

    /// Takes in the new QR code fetched after the previous one expired.
    pub fn qr_refreshed(&mut self, qr: &QRCodeResponse)
        ensures
            final(self).refresh_count == old(self).refresh_count,
            final(self).base_url == old(self).base_url,
            final(self).qrcode@ == or_empty(qr.qrcode),
            final(self).qrcode_url@ == or_empty(qr.qrcode_img_content),
            shows(final(self).current_qr, final(self).qrcode@, final(self).qrcode_url@, "waiting"@),
    {
        self.qrcode = text_or_empty(&qr.qrcode);
        self.qrcode_url = text_or_empty(&qr.qrcode_img_content);
        let info = waiting_info(&self.qrcode, &self.qrcode_url);
        self.current_qr = Some(info);
    }

    /// Ends a round whose time ran out: nothing is shown any more, and the
    /// round failed.
    pub fn timed_out(&mut self) -> (r: ScanResult)
        ensures
            failed_scan(r, "扫码等待超时"@),
            final(self).current_qr is None,
            final(self).refresh_count == old(self).refresh_count,
    {
        self.current_qr = None;
        failed("扫码等待超时")
    }
}

} // verus!
