use vstd::prelude::*;
use crate::keyed::KeyedVec;

verus! {

/// The message table of the supported languages ("ja", "en", "zh", "ko"); empty for any other.
pub open spec fn messages_for(language: Seq<char>) -> Map<Seq<char>, Seq<char>> {
    if language == "ja"@ {
        Map::empty().insert("welcome"@, "Rustoriumへようこそ！"@).insert(
            "select_action"@,
            "実行したいアクションを選択してください："@,
        ).insert("account"@, "アカウント管理"@).insert("transaction"@, "トランザクション"@).insert(
            "smart_contract"@,
            "スマートコントラクト"@,
        ).insert("blockchain"@, "ブロックチェーン情報"@).insert("settings"@, "設定"@).insert(
            "exit"@,
            "終了"@,
        )
    } else if language == "en"@ {
        Map::empty().insert("welcome"@, "Welcome to Rustorium!"@).insert(
            "select_action"@,
            "Select an action to perform:"@,
        ).insert("account"@, "Account Management"@).insert("transaction"@, "Transactions"@).insert(
            "smart_contract"@,
            "Smart Contracts"@,
        ).insert("blockchain"@, "Blockchain Info"@).insert("settings"@, "Settings"@).insert(
            "exit"@,
            "Exit"@,
        )
    } else if language == "zh"@ {
        Map::empty().insert("welcome"@, "欢迎使用 Rustorium！"@).insert(
            "select_action"@,
            "请选择要执行的操作："@,
        ).insert("account"@, "账户管理"@).insert("transaction"@, "交易"@).insert(
            "smart_contract"@,
            "智能合约"@,
        ).insert("blockchain"@, "区块链信息"@).insert("settings"@, "设置"@).insert("exit"@, "退出"@)
    } else if language == "ko"@ {
        Map::empty().insert("welcome"@, "Rustorium에 오신 것을 환영합니다!"@).insert(
            "select_action"@,
            "실행할 작업을 선택하세요:"@,
        ).insert("account"@, "계정 관리"@).insert("transaction"@, "트랜잭션"@).insert(
            "smart_contract"@,
            "스마트 컨트랙트"@,
        ).insert("blockchain"@, "블록체인 정보"@).insert("settings"@, "설정"@).insert("exit"@, "종료"@)
    } else {
        Map::empty()
    }
}

/// The keys of the user-interface messages.
pub open spec fn message_keys() -> Set<Seq<char>> {
    set![
        "welcome"@,
        "select_action"@,
        "account"@,
        "transaction"@,
        "smart_contract"@,
        "blockchain"@,
        "settings"@,
        "exit"@,
    ]
}

/// Every supported language has a message for every key, and for no other key.
pub proof fn law_supported_languages_complete(language: Seq<char>)
    requires
        language == "ja"@ || language == "en"@ || language == "zh"@ || language == "ko"@,
    ensures
        messages_for(language).dom() == message_keys(),
{
    assert(messages_for(language).dom() =~= message_keys());
}

/// The messages of the user interface in one language.
#[derive(Debug)]
pub struct LocaleConfig {
    pub language: String,
    messages: KeyedVec<String, String>,
}

fn table(entries: [(&str, &str); 8]) -> (r: KeyedVec<String, String>)
    ensures
        r.wf(),
        r@ == Map::<Seq<char>, Seq<char>>::empty().insert(entries[0].0@, entries[0].1@).insert(
            entries[1].0@,
            entries[1].1@,
        ).insert(entries[2].0@, entries[2].1@).insert(entries[3].0@, entries[3].1@).insert(
            entries[4].0@,
            entries[4].1@,
        ).insert(entries[5].0@, entries[5].1@).insert(entries[6].0@, entries[6].1@).insert(
            entries[7].0@,
            entries[7].1@,
        ),
{
    let mut m: KeyedVec<String, String> = KeyedVec::new();
    let mut i: usize = 0;
    while i < 8
        invariant
            m.wf(),
            i <= 8,
            m@ == (if i == 0 {
                Map::<Seq<char>, Seq<char>>::empty()
            } else if i == 1 {
                Map::empty().insert(entries[0].0@, entries[0].1@)
            } else if i == 2 {
                Map::empty().insert(entries[0].0@, entries[0].1@).insert(entries[1].0@, entries[1].1@)
            } else if i == 3 {
                Map::empty().insert(entries[0].0@, entries[0].1@).insert(entries[1].0@, entries[1].1@).insert(entries[2].0@, entries[2].1@)
            } else if i == 4 {
                Map::empty().insert(entries[0].0@, entries[0].1@).insert(entries[1].0@, entries[1].1@).insert(entries[2].0@, entries[2].1@).insert(entries[3].0@, entries[3].1@)
            } else if i == 5 {
                Map::empty().insert(entries[0].0@, entries[0].1@).insert(entries[1].0@, entries[1].1@).insert(entries[2].0@, entries[2].1@).insert(entries[3].0@, entries[3].1@).insert(entries[4].0@, entries[4].1@)
            } else if i == 6 {
                Map::empty().insert(entries[0].0@, entries[0].1@).insert(entries[1].0@, entries[1].1@).insert(entries[2].0@, entries[2].1@).insert(entries[3].0@, entries[3].1@).insert(entries[4].0@, entries[4].1@).insert(entries[5].0@, entries[5].1@)
            } else if i == 7 {
                Map::empty().insert(entries[0].0@, entries[0].1@).insert(entries[1].0@, entries[1].1@).insert(entries[2].0@, entries[2].1@).insert(entries[3].0@, entries[3].1@).insert(entries[4].0@, entries[4].1@).insert(entries[5].0@, entries[5].1@).insert(entries[6].0@, entries[6].1@)
            } else {
                Map::empty().insert(entries[0].0@, entries[0].1@).insert(entries[1].0@, entries[1].1@).insert(entries[2].0@, entries[2].1@).insert(entries[3].0@, entries[3].1@).insert(entries[4].0@, entries[4].1@).insert(entries[5].0@, entries[5].1@).insert(entries[6].0@, entries[6].1@).insert(entries[7].0@, entries[7].1@)
            }),
        decreases 8 - i,
    {
        let (k, v) = entries[i];
        m.insert(k.to_owned(), v.to_owned());
        i = i + 1;
    }
    m
}

impl LocaleConfig {
    /// The language of the messages.
    pub closed spec fn language_of(&self) -> Seq<char> {
        self.language@
    }

    /// The message table.
    pub closed spec fn table(&self) -> Map<Seq<char>, Seq<char>> {
        self.messages@
    }

    pub closed spec fn wf(&self) -> bool {
        self.messages.wf()
    }

    /// The messages of `language`; a language without a table has no message.
    pub fn new(language: &str) -> (r: Self)
        ensures
            r.language_of() == language@,
            r.table() == messages_for(language@),
            r.wf(),
    {
        let lang = language.to_owned();
        let messages = if lang == String::from_str("ja") {
            table([
                ("welcome", "Rustoriumへようこそ！"),
                ("select_action", "実行したいアクションを選択してください："),
                ("account", "アカウント管理"),
                ("transaction", "トランザクション"),
                ("smart_contract", "スマートコントラクト"),
                ("blockchain", "ブロックチェーン情報"),
                ("settings", "設定"),
                ("exit", "終了"),
            ])
        } else if lang == String::from_str("en") {
            table([
                ("welcome", "Welcome to Rustorium!"),
                ("select_action", "Select an action to perform:"),
                ("account", "Account Management"),
                ("transaction", "Transactions"),
                ("smart_contract", "Smart Contracts"),
                ("blockchain", "Blockchain Info"),
                ("settings", "Settings"),
                ("exit", "Exit"),
            ])
        } else if lang == String::from_str("zh") {
            table([
                ("welcome", "欢迎使用 Rustorium！"),
                ("select_action", "请选择要执行的操作："),
                ("account", "账户管理"),
                ("transaction", "交易"),
                ("smart_contract", "智能合约"),
                ("blockchain", "区块链信息"),
                ("settings", "设置"),
                ("exit", "退出"),
            ])
        } else if lang == String::from_str("ko") {
            table([
                ("welcome", "Rustorium에 오신 것을 환영합니다!"),
                ("select_action", "실행할 작업을 선택하세요:"),
                ("account", "계정 관리"),
                ("transaction", "트랜잭션"),
                ("smart_contract", "스마트 컨트랙트"),
                ("blockchain", "블록체인 정보"),
                ("settings", "설정"),
                ("exit", "종료"),
            ])
        } else {
            KeyedVec::new()
        };
        LocaleConfig { language: lang, messages }
    }

    /// The message for `key`, or `key` itself where the table has none.
    pub fn get_message<'a>(&'a self, key: &'a str) -> (r: &'a str)
        requires
            self.wf(),
        ensures
            r@ == if self.table().contains_key(key@) {
                self.table()[key@]
            } else {
                key@
            },
    {
        let k = key.to_owned();
        match self.messages.get(&k) {
            Some(m) => m.as_str(),
            None => key,
        }
    }
}

} // verus!
