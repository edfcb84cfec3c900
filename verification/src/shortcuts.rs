//! The keyboard shortcut table shown in the help dialog.

use vstd::prelude::*;

verus! {

/// Handler for keyboard shortcuts.
pub struct ShortcutHandler;

impl ShortcutHandler {
    /// The shortcut table: each entry pairs a key with what it does.
    pub fn get_shortcut_description() -> (r: Vec<(&'static str, &'static str)>)
        ensures
            r@.len() == 16,
            r@[0].0@ == "A-Z"@,
            r@[1].0@ == "Enter"@,
            r@[2].0@ == "Backspace"@,
            r@[3].0@ == "Del"@,
            r@[4].0@ == "F2"@,
            r@[5].0@ == "F5"@,
            r@[6].0@ == "H"@,
            r@[7].0@ == "N"@,
            r@[8].0@ == "K"@,
            r@[9].0@ == "U"@,
            r@[10].0@ == "P"@,
            r@[11].0@ == "V"@,
            r@[12].0@ == "R"@,
            r@[13].0@ == "C"@,
            r@[14].0@ == "M"@,
            r@[15].0@ == "S"@,
    {
        let mut v: Vec<(&'static str, &'static str)> = Vec::new();
        v.push(("A-Z", "頭文字検索"));
        v.push(("Enter", "開く"));
        v.push(("Backspace", "親ディレクトリ"));
        v.push(("Del", "削除"));
        v.push(("F2", "名前変更"));
        v.push(("F5", "更新"));
        v.push(("H", "ヘルプ"));
        v.push(("N", "新規ファイル作成"));
        v.push(("K", "新規フォルダ作成"));
        v.push(("U", "解凍 (Unpack)"));
        v.push(("P", "圧縮 (Pack)"));
        v.push(("V", "表示/圧縮ファイル中身"));
        v.push(("R", "名前変更 (Rename)"));
        v.push(("C", "複製"));
        v.push(("M", "移動"));
        v.push(("S", "圧縮書庫作成"));
        v
    }
}

} // verus!
