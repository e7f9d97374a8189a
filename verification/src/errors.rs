use vstd::prelude::*;

verus! {

/// Which part of the program an [`AppError`] comes from.
#[derive(Clone, Copy, Debug, PartialEq, Eq, Structural)]
pub enum ErrorKind {
    InvalidCommand,
    Config,
    Scrape,
    Parse,
    Diff,
    Discord,
    Storage,
    Process,
}

/// The errors of the program. Each carries the text of what went wrong; for
/// `Parse` and `Storage` that is the text of the JSON or I/O error.
#[derive(Debug)]
pub enum AppError {
    InvalidCommand(String),
    Config(String),
    Scrape(String),
    Parse(String),
    Diff(String),
    Discord(String),
    Storage(String),
    Process(String),
}

impl View for AppError {
    type V = (ErrorKind, Seq<char>);

    open spec fn view(&self) -> (ErrorKind, Seq<char>) {
        match self {
            AppError::InvalidCommand(s) => (ErrorKind::InvalidCommand, s@),
            AppError::Config(s) => (ErrorKind::Config, s@),
            AppError::Scrape(s) => (ErrorKind::Scrape, s@),
            AppError::Parse(s) => (ErrorKind::Parse, s@),
            AppError::Diff(s) => (ErrorKind::Diff, s@),
            AppError::Discord(s) => (ErrorKind::Discord, s@),
            AppError::Storage(s) => (ErrorKind::Storage, s@),
            AppError::Process(s) => (ErrorKind::Process, s@),
        }
    }
}

/// The words that the message of each kind of error starts with.
pub open spec fn kind_prefix(kind: ErrorKind) -> Seq<char> {
    match kind {
        ErrorKind::InvalidCommand => "コマンドエラー: "@,
        ErrorKind::Config => "設定エラー: "@,
        ErrorKind::Scrape => "スクレイプエラー: "@,
        ErrorKind::Parse => "JSONパースエラー: "@,
        ErrorKind::Diff => "差分判定エラー: "@,
        ErrorKind::Discord => "Discord送信エラー: "@,
        ErrorKind::Storage => "ストレージエラー: "@,
        ErrorKind::Process => "Pythonプロセスエラー: "@,
    }
}

/// The message of an error: the words of its kind, then its text.
pub open spec fn error_message(e: (ErrorKind, Seq<char>)) -> Seq<char> {
    kind_prefix(e.0) + e.1
}

impl AppError {
    /// The message of this error (see [`error_message`]).
    pub fn message(&self) -> (m: String)
        ensures
            m@ == error_message(self@),
    {
        let (prefix, detail) = match self {
            AppError::InvalidCommand(s) => ("コマンドエラー: ", s),
            AppError::Config(s) => ("設定エラー: ", s),
            AppError::Scrape(s) => ("スクレイプエラー: ", s),
            AppError::Parse(s) => ("JSONパースエラー: ", s),
            AppError::Diff(s) => ("差分判定エラー: ", s),
            AppError::Discord(s) => ("Discord送信エラー: ", s),
            AppError::Storage(s) => ("ストレージエラー: ", s),
            AppError::Process(s) => ("Pythonプロセスエラー: ", s),
        };
        let mut m = prefix.to_owned();
        m.append(detail.as_str());
        m
    }

    /// A copy of this error.
    pub fn duplicate(&self) -> (e: AppError)
        ensures
            e@ == self@,
    {
        match self {
            AppError::InvalidCommand(s) => AppError::InvalidCommand(s.clone()),
            AppError::Config(s) => AppError::Config(s.clone()),
            AppError::Scrape(s) => AppError::Scrape(s.clone()),
            AppError::Parse(s) => AppError::Parse(s.clone()),
            AppError::Diff(s) => AppError::Diff(s.clone()),
            AppError::Discord(s) => AppError::Discord(s.clone()),
            AppError::Storage(s) => AppError::Storage(s.clone()),
            AppError::Process(s) => AppError::Process(s.clone()),
        }
    }
}

} // verus!
