use yutai_watch::error::AppError as FetchError;
use yutai_watch::errors::AppError;

#[test]
fn messages_of_each_kind() {
    let cases = vec![
        (AppError::InvalidCommand("x".into()), "コマンドエラー: x"),
        (AppError::Config("x".into()), "設定エラー: x"),
        (AppError::Scrape("x".into()), "スクレイプエラー: x"),
        (AppError::Parse("x".into()), "JSONパースエラー: x"),
        (AppError::Diff("x".into()), "差分判定エラー: x"),
        (AppError::Discord("x".into()), "Discord送信エラー: x"),
        (AppError::Storage("x".into()), "ストレージエラー: x"),
        (AppError::Process("x".into()), "Pythonプロセスエラー: x"),
    ];
    for (e, m) in cases {
        assert_eq!(e.message(), m);
        assert_eq!(e.duplicate().message(), m);
    }
}

#[test]
fn fetch_error_messages() {
    assert_eq!(FetchError::HTTP.message(), "HTTPリクエスト失敗");
    assert_eq!(FetchError::Parse.message(), "HTTPのパースに失敗");
    assert_eq!(FetchError::Data.message(), "データ保存に失敗");
    assert_eq!(FetchError::Discord.message(), "Discord通知に失敗");
}
