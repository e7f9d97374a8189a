use vstd::prelude::*;

verus! {

/// The errors of fetching the benefit news page directly.
#[derive(Clone, Copy, Debug, PartialEq, Eq, Structural)]
pub enum AppError {
    /// The HTTP request failed.
    HTTP,
    /// The HTTP response could not be parsed.
    Parse,
    /// The data could not be saved.
    Data,
    /// The Discord notification failed.
    Discord,
}

/// The message of each error.
pub open spec fn fetch_error_message(e: AppError) -> Seq<char> {
    match e {
        AppError::HTTP => "HTTPリクエスト失敗"@,
        AppError::Parse => "HTTPのパースに失敗"@,
        AppError::Data => "データ保存に失敗"@,
        AppError::Discord => "Discord通知に失敗"@,
    }
}

impl AppError {
    /// The message of this error.
    pub fn message(&self) -> (m: String)
        ensures
            m@ == fetch_error_message(*self),
    {
        let text = match self {
            AppError::HTTP => "HTTPリクエスト失敗",
            AppError::Parse => "HTTPのパースに失敗",
            AppError::Data => "データ保存に失敗",
            AppError::Discord => "Discord通知に失敗",
        };
        text.to_owned()
    }
}

} // verus!
