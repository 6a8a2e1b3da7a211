use vstd::prelude::*;
use crate::power::Power;
use crate::power::spec_symbol;
use crate::text::str_eq;

verus! {

/// Number of provinces (coasts of split provinces counted apart) on the map.
pub const PROVINCE_COUNT: u8 = 81;

/// Terrain of a province.
#[derive(Debug, Clone, Copy, PartialEq, Eq, Hash, Structural)]
pub enum Terrain {
    Water,
    Coast,
    Inland,
}

/// A province of the map, given by its position in the province table.
#[derive(Debug, Clone, Copy, PartialEq, Eq, Hash, Structural)]
pub struct Province(u8);

/// The fixed description of a province.
#[derive(Debug, Clone, Copy)]
pub struct ProvinceData {
    pub code: &'static str,
    pub full: &'static str,
    pub jname: &'static str,
    pub kind: &'static str,
    pub supply: bool,
    pub home: Option<&'static str>,
}

/// Code of the province at position `i` of the table.
pub open spec fn spec_code(i: int) -> Seq<char> {
    if i == 0 { "adr"@ }
    else if i == 1 { "aeg"@ }
    else if i == 2 { "alb"@ }
    else if i == 3 { "ank"@ }
    else if i == 4 { "apu"@ }
    else if i == 5 { "arm"@ }
    else if i == 6 { "bal"@ }
    else if i == 7 { "bar"@ }
    else if i == 8 { "bel"@ }
    else if i == 9 { "ber"@ }
    else if i == 10 { "bla"@ }
    else if i == 11 { "boh"@ }
    else if i == 12 { "bot"@ }
    else if i == 13 { "bre"@ }
    else if i == 14 { "bud"@ }
    else if i == 15 { "bul"@ }
    else if i == 16 { "bul_ec"@ }
    else if i == 17 { "bul_sc"@ }
    else if i == 18 { "bur"@ }
    else if i == 19 { "cly"@ }
    else if i == 20 { "con"@ }
    else if i == 21 { "den"@ }
    else if i == 22 { "eas"@ }
    else if i == 23 { "edi"@ }
    else if i == 24 { "eng"@ }
    else if i == 25 { "fin"@ }
    else if i == 26 { "gal"@ }
    else if i == 27 { "gas"@ }
    else if i == 28 { "gre"@ }
    else if i == 29 { "hel"@ }
    else if i == 30 { "hol"@ }
    else if i == 31 { "ion"@ }
    else if i == 32 { "iri"@ }
    else if i == 33 { "kie"@ }
    else if i == 34 { "lon"@ }
    else if i == 35 { "lvn"@ }
    else if i == 36 { "lvp"@ }
    else if i == 37 { "lyo"@ }
    else if i == 38 { "mao"@ }
    else if i == 39 { "mar"@ }
    else if i == 40 { "mos"@ }
    else if i == 41 { "mun"@ }
    else if i == 42 { "naf"@ }
    else if i == 43 { "nao"@ }
    else if i == 44 { "nap"@ }
    else if i == 45 { "nth"@ }
    else if i == 46 { "nwg"@ }
    else if i == 47 { "nwy"@ }
    else if i == 48 { "par"@ }
    else if i == 49 { "pic"@ }
    else if i == 50 { "pie"@ }
    else if i == 51 { "por"@ }
    else if i == 52 { "pru"@ }
    else if i == 53 { "rom"@ }
    else if i == 54 { "ruh"@ }
    else if i == 55 { "rum"@ }
    else if i == 56 { "ser"@ }
    else if i == 57 { "sev"@ }
    else if i == 58 { "sil"@ }
    else if i == 59 { "ska"@ }
    else if i == 60 { "smy"@ }
    else if i == 61 { "spa"@ }
    else if i == 62 { "spa_nc"@ }
    else if i == 63 { "spa_sc"@ }
    else if i == 64 { "stp"@ }
    else if i == 65 { "stp_nc"@ }
    else if i == 66 { "stp_sc"@ }
    else if i == 67 { "swe"@ }
    else if i == 68 { "syr"@ }
    else if i == 69 { "tri"@ }
    else if i == 70 { "tun"@ }
    else if i == 71 { "tus"@ }
    else if i == 72 { "tyr"@ }
    else if i == 73 { "tys"@ }
    else if i == 74 { "ukr"@ }
    else if i == 75 { "ven"@ }
    else if i == 76 { "vie"@ }
    else if i == 77 { "wal"@ }
    else if i == 78 { "war"@ }
    else if i == 79 { "wes"@ }
    else if i == 80 { "yor"@ }
    else { Seq::empty() }
}

/// English name of the province at position `i`.
pub open spec fn spec_full_name(i: int) -> Seq<char> {
    if i == 0 { "Adriatic Water"@ }
    else if i == 1 { "Aegean Water"@ }
    else if i == 2 { "Albania"@ }
    else if i == 3 { "Ankara"@ }
    else if i == 4 { "Apulia"@ }
    else if i == 5 { "Armenia"@ }
    else if i == 6 { "Baltic Water"@ }
    else if i == 7 { "Barents Water"@ }
    else if i == 8 { "Belgium"@ }
    else if i == 9 { "Berlin"@ }
    else if i == 10 { "Black Water"@ }
    else if i == 11 { "Bohemia"@ }
    else if i == 12 { "Gulf of Bothnia"@ }
    else if i == 13 { "Brest"@ }
    else if i == 14 { "Budapest"@ }
    else if i == 15 { "Bulgaria"@ }
    else if i == 16 { "Bulgaria(EC)"@ }
    else if i == 17 { "Bulgaria(SC)"@ }
    else if i == 18 { "Burgundy"@ }
    else if i == 19 { "Clyde"@ }
    else if i == 20 { "Constantinople"@ }
    else if i == 21 { "Denmark"@ }
    else if i == 22 { "Eastern Mediterranean"@ }
    else if i == 23 { "Edinburgh"@ }
    else if i == 24 { "English Channel"@ }
    else if i == 25 { "Finland"@ }
    else if i == 26 { "Galicia"@ }
    else if i == 27 { "Gascony"@ }
    else if i == 28 { "Greece"@ }
    else if i == 29 { "Helgoland Bight"@ }
    else if i == 30 { "Holland"@ }
    else if i == 31 { "Ionian Water"@ }
    else if i == 32 { "Irish Water"@ }
    else if i == 33 { "Kiel"@ }
    else if i == 34 { "London"@ }
    else if i == 35 { "Livonia"@ }
    else if i == 36 { "Liverpool"@ }
    else if i == 37 { "Gulf of Lyon"@ }
    else if i == 38 { "Mid-Atlantic Ocean"@ }
    else if i == 39 { "Marseilles"@ }
    else if i == 40 { "Moscow"@ }
    else if i == 41 { "Munich"@ }
    else if i == 42 { "North Africa"@ }
    else if i == 43 { "North Atlantic Ocean"@ }
    else if i == 44 { "Naples"@ }
    else if i == 45 { "North Water"@ }
    else if i == 46 { "Norwegian Water"@ }
    else if i == 47 { "Norway"@ }
    else if i == 48 { "Paris"@ }
    else if i == 49 { "Picardy"@ }
    else if i == 50 { "Piedmont"@ }
    else if i == 51 { "Portugal"@ }
    else if i == 52 { "Prussia"@ }
    else if i == 53 { "Rome"@ }
    else if i == 54 { "Ruhr"@ }
    else if i == 55 { "Rumania"@ }
    else if i == 56 { "Serbia"@ }
    else if i == 57 { "Sevastopol"@ }
    else if i == 58 { "Silesia"@ }
    else if i == 59 { "Skagerrak"@ }
    else if i == 60 { "Smyrna"@ }
    else if i == 61 { "Spain"@ }
    else if i == 62 { "Spain(NC)"@ }
    else if i == 63 { "Spain(SC)"@ }
    else if i == 64 { "St. Petersburg"@ }
    else if i == 65 { "St. Petersburg(NC)"@ }
    else if i == 66 { "St. Petersburg(SC)"@ }
    else if i == 67 { "Sweden"@ }
    else if i == 68 { "Syria"@ }
    else if i == 69 { "Trieste"@ }
    else if i == 70 { "Tunis"@ }
    else if i == 71 { "Tuscany"@ }
    else if i == 72 { "Tyrolia"@ }
    else if i == 73 { "Tyrrhenian Water"@ }
    else if i == 74 { "Ukraine"@ }
    else if i == 75 { "Venice"@ }
    else if i == 76 { "Vienna"@ }
    else if i == 77 { "Wales"@ }
    else if i == 78 { "Warsaw"@ }
    else if i == 79 { "Western Mediterranean"@ }
    else if i == 80 { "Yorkshire"@ }
    else { Seq::empty() }
}

/// Japanese name of the province at position `i`.
pub open spec fn spec_jname(i: int) -> Seq<char> {
    if i == 0 { "アドリア海"@ }
    else if i == 1 { "エーゲ海"@ }
    else if i == 2 { "アルバニア"@ }
    else if i == 3 { "アンカラ"@ }
    else if i == 4 { "アプリア"@ }
    else if i == 5 { "アルメニア"@ }
    else if i == 6 { "バルト海"@ }
    else if i == 7 { "バレンツ海"@ }
    else if i == 8 { "ベルギー"@ }
    else if i == 9 { "ベルリン"@ }
    else if i == 10 { "黒海"@ }
    else if i == 11 { "ボヘミア"@ }
    else if i == 12 { "ボスニア湾"@ }
    else if i == 13 { "ブレスト"@ }
    else if i == 14 { "ブダペスト"@ }
    else if i == 15 { "ブルガリア"@ }
    else if i == 16 { "ブルガリア(EC)"@ }
    else if i == 17 { "ブルガリア(SC)"@ }
    else if i == 18 { "ブルゴーニュ"@ }
    else if i == 19 { "クライド"@ }
    else if i == 20 { "コンスタンティノープル"@ }
    else if i == 21 { "デンマーク"@ }
    else if i == 22 { "東地中海"@ }
    else if i == 23 { "エディンバラ"@ }
    else if i == 24 { "イギリス海峡"@ }
    else if i == 25 { "フィンランド"@ }
    else if i == 26 { "ガリツィア"@ }
    else if i == 27 { "ガスコーニュ"@ }
    else if i == 28 { "ギリシア"@ }
    else if i == 29 { "ヘルゴラント湾"@ }
    else if i == 30 { "オランダ"@ }
    else if i == 31 { "イオニア海"@ }
    else if i == 32 { "アイリッシュ海"@ }
    else if i == 33 { "キール"@ }
    else if i == 34 { "ロンドン"@ }
    else if i == 35 { "リヴォニア"@ }
    else if i == 36 { "リヴァプール"@ }
    else if i == 37 { "リオン湾"@ }
    else if i == 38 { "中大西洋"@ }
    else if i == 39 { "マルセイユ"@ }
    else if i == 40 { "モスクワ"@ }
    else if i == 41 { "ミュンヘン"@ }
    else if i == 42 { "北アフリカ"@ }
    else if i == 43 { "北大西洋"@ }
    else if i == 44 { "ナポリ"@ }
    else if i == 45 { "北海"@ }
    else if i == 46 { "ノルウェー海"@ }
    else if i == 47 { "ノルウェー"@ }
    else if i == 48 { "パリ"@ }
    else if i == 49 { "ピカルディ"@ }
    else if i == 50 { "ピエモンテ"@ }
    else if i == 51 { "ポルトガル"@ }
    else if i == 52 { "プロイセン"@ }
    else if i == 53 { "ローマ"@ }
    else if i == 54 { "ルール"@ }
    else if i == 55 { "ルーマニア"@ }
    else if i == 56 { "セルビア"@ }
    else if i == 57 { "セヴァストポリ"@ }
    else if i == 58 { "シレジア"@ }
    else if i == 59 { "スカゲラク海峡"@ }
    else if i == 60 { "スミルナ"@ }
    else if i == 61 { "スペイン"@ }
    else if i == 62 { "スペイン(NC)"@ }
    else if i == 63 { "スペイン(SC)"@ }
    else if i == 64 { "サンクトペテルブルク"@ }
    else if i == 65 { "サンクトペテルブルク(NC)"@ }
    else if i == 66 { "サンクトペテルブルク(SC)"@ }
    else if i == 67 { "スウェーデン"@ }
    else if i == 68 { "シリア"@ }
    else if i == 69 { "トリエステ"@ }
    else if i == 70 { "チュニス"@ }
    else if i == 71 { "トスカーナ"@ }
    else if i == 72 { "ティロル"@ }
    else if i == 73 { "ティレニア海"@ }
    else if i == 74 { "ウクライナ"@ }
    else if i == 75 { "ヴェネツィア"@ }
    else if i == 76 { "ウィーン"@ }
    else if i == 77 { "ウェールズ"@ }
    else if i == 78 { "ワルシャワ"@ }
    else if i == 79 { "西地中海"@ }
    else if i == 80 { "ヨークシャー"@ }
    else { Seq::empty() }
}

/// Terrain of the province at position `i`.
pub open spec fn spec_terrain(i: int) -> Terrain {
    if i == 0 { Terrain::Water }
    else if i == 1 { Terrain::Water }
    else if i == 2 { Terrain::Coast }
    else if i == 3 { Terrain::Coast }
    else if i == 4 { Terrain::Coast }
    else if i == 5 { Terrain::Coast }
    else if i == 6 { Terrain::Water }
    else if i == 7 { Terrain::Water }
    else if i == 8 { Terrain::Coast }
    else if i == 9 { Terrain::Coast }
    else if i == 10 { Terrain::Water }
    else if i == 11 { Terrain::Inland }
    else if i == 12 { Terrain::Water }
    else if i == 13 { Terrain::Coast }
    else if i == 14 { Terrain::Inland }
    else if i == 15 { Terrain::Coast }
    else if i == 16 { Terrain::Coast }
    else if i == 17 { Terrain::Coast }
    else if i == 18 { Terrain::Inland }
    else if i == 19 { Terrain::Coast }
    else if i == 20 { Terrain::Coast }
    else if i == 21 { Terrain::Coast }
    else if i == 22 { Terrain::Water }
    else if i == 23 { Terrain::Coast }
    else if i == 24 { Terrain::Water }
    else if i == 25 { Terrain::Coast }
    else if i == 26 { Terrain::Inland }
    else if i == 27 { Terrain::Coast }
    else if i == 28 { Terrain::Coast }
    else if i == 29 { Terrain::Water }
    else if i == 30 { Terrain::Coast }
    else if i == 31 { Terrain::Water }
    else if i == 32 { Terrain::Water }
    else if i == 33 { Terrain::Coast }
    else if i == 34 { Terrain::Coast }
    else if i == 35 { Terrain::Coast }
    else if i == 36 { Terrain::Coast }
    else if i == 37 { Terrain::Water }
    else if i == 38 { Terrain::Water }
    else if i == 39 { Terrain::Coast }
    else if i == 40 { Terrain::Inland }
    else if i == 41 { Terrain::Inland }
    else if i == 42 { Terrain::Coast }
    else if i == 43 { Terrain::Water }
    else if i == 44 { Terrain::Coast }
    else if i == 45 { Terrain::Water }
    else if i == 46 { Terrain::Water }
    else if i == 47 { Terrain::Coast }
    else if i == 48 { Terrain::Inland }
    else if i == 49 { Terrain::Coast }
    else if i == 50 { Terrain::Coast }
    else if i == 51 { Terrain::Coast }
    else if i == 52 { Terrain::Coast }
    else if i == 53 { Terrain::Coast }
    else if i == 54 { Terrain::Inland }
    else if i == 55 { Terrain::Coast }
    else if i == 56 { Terrain::Inland }
    else if i == 57 { Terrain::Coast }
    else if i == 58 { Terrain::Inland }
    else if i == 59 { Terrain::Water }
    else if i == 60 { Terrain::Coast }
    else if i == 61 { Terrain::Coast }
    else if i == 62 { Terrain::Coast }
    else if i == 63 { Terrain::Coast }
    else if i == 64 { Terrain::Coast }
    else if i == 65 { Terrain::Coast }
    else if i == 66 { Terrain::Coast }
    else if i == 67 { Terrain::Coast }
    else if i == 68 { Terrain::Coast }
    else if i == 69 { Terrain::Coast }
    else if i == 70 { Terrain::Coast }
    else if i == 71 { Terrain::Coast }
    else if i == 72 { Terrain::Inland }
    else if i == 73 { Terrain::Water }
    else if i == 74 { Terrain::Inland }
    else if i == 75 { Terrain::Coast }
    else if i == 76 { Terrain::Inland }
    else if i == 77 { Terrain::Coast }
    else if i == 78 { Terrain::Inland }
    else if i == 79 { Terrain::Water }
    else if i == 80 { Terrain::Coast }
    else { Terrain::Inland }
}

/// Whether the province at position `i` holds a supply center.
pub open spec fn spec_supply(i: int) -> bool {
    if i == 0 { false }
    else if i == 1 { false }
    else if i == 2 { false }
    else if i == 3 { true }
    else if i == 4 { false }
    else if i == 5 { false }
    else if i == 6 { false }
    else if i == 7 { false }
    else if i == 8 { true }
    else if i == 9 { true }
    else if i == 10 { false }
    else if i == 11 { false }
    else if i == 12 { false }
    else if i == 13 { true }
    else if i == 14 { true }
    else if i == 15 { true }
    else if i == 16 { false }
    else if i == 17 { false }
    else if i == 18 { false }
    else if i == 19 { false }
    else if i == 20 { true }
    else if i == 21 { true }
    else if i == 22 { false }
    else if i == 23 { true }
    else if i == 24 { false }
    else if i == 25 { false }
    else if i == 26 { false }
    else if i == 27 { false }
    else if i == 28 { true }
    else if i == 29 { false }
    else if i == 30 { true }
    else if i == 31 { false }
    else if i == 32 { false }
    else if i == 33 { true }
    else if i == 34 { true }
    else if i == 35 { false }
    else if i == 36 { true }
    else if i == 37 { false }
    else if i == 38 { false }
    else if i == 39 { true }
    else if i == 40 { true }
    else if i == 41 { true }
    else if i == 42 { false }
    else if i == 43 { false }
    else if i == 44 { true }
    else if i == 45 { false }
    else if i == 46 { false }
    else if i == 47 { true }
    else if i == 48 { true }
    else if i == 49 { false }
    else if i == 50 { false }
    else if i == 51 { true }
    else if i == 52 { false }
    else if i == 53 { true }
    else if i == 54 { false }
    else if i == 55 { true }
    else if i == 56 { true }
    else if i == 57 { true }
    else if i == 58 { false }
    else if i == 59 { false }
    else if i == 60 { true }
    else if i == 61 { true }
    else if i == 62 { false }
    else if i == 63 { false }
    else if i == 64 { true }
    else if i == 65 { false }
    else if i == 66 { false }
    else if i == 67 { true }
    else if i == 68 { false }
    else if i == 69 { true }
    else if i == 70 { true }
    else if i == 71 { false }
    else if i == 72 { false }
    else if i == 73 { false }
    else if i == 74 { false }
    else if i == 75 { true }
    else if i == 76 { true }
    else if i == 77 { false }
    else if i == 78 { true }
    else if i == 79 { false }
    else if i == 80 { false }
    else { false }
}

/// Home power of the province at position `i`, if any.
pub open spec fn spec_home(i: int) -> Option<Power> {
    if i == 0 { None }
    else if i == 1 { None }
    else if i == 2 { None }
    else if i == 3 { Some(Power::Turkey) }
    else if i == 4 { Some(Power::Italy) }
    else if i == 5 { Some(Power::Turkey) }
    else if i == 6 { None }
    else if i == 7 { None }
    else if i == 8 { None }
    else if i == 9 { Some(Power::Germany) }
    else if i == 10 { None }
    else if i == 11 { Some(Power::Austria) }
    else if i == 12 { None }
    else if i == 13 { Some(Power::France) }
    else if i == 14 { Some(Power::Austria) }
    else if i == 15 { None }
    else if i == 16 { None }
    else if i == 17 { None }
    else if i == 18 { Some(Power::France) }
    else if i == 19 { Some(Power::England) }
    else if i == 20 { Some(Power::Turkey) }
    else if i == 21 { None }
    else if i == 22 { None }
    else if i == 23 { Some(Power::England) }
    else if i == 24 { None }
    else if i == 25 { Some(Power::Russia) }
    else if i == 26 { Some(Power::Austria) }
    else if i == 27 { Some(Power::France) }
    else if i == 28 { None }
    else if i == 29 { None }
    else if i == 30 { None }
    else if i == 31 { None }
    else if i == 32 { None }
    else if i == 33 { Some(Power::Germany) }
    else if i == 34 { Some(Power::England) }
    else if i == 35 { Some(Power::Russia) }
    else if i == 36 { Some(Power::England) }
    else if i == 37 { None }
    else if i == 38 { None }
    else if i == 39 { Some(Power::France) }
    else if i == 40 { Some(Power::Russia) }
    else if i == 41 { Some(Power::Germany) }
    else if i == 42 { None }
    else if i == 43 { None }
    else if i == 44 { Some(Power::Italy) }
    else if i == 45 { None }
    else if i == 46 { None }
    else if i == 47 { None }
    else if i == 48 { Some(Power::France) }
    else if i == 49 { Some(Power::France) }
    else if i == 50 { Some(Power::Italy) }
    else if i == 51 { None }
    else if i == 52 { Some(Power::Germany) }
    else if i == 53 { Some(Power::Italy) }
    else if i == 54 { Some(Power::Germany) }
    else if i == 55 { None }
    else if i == 56 { None }
    else if i == 57 { Some(Power::Russia) }
    else if i == 58 { Some(Power::Germany) }
    else if i == 59 { None }
    else if i == 60 { Some(Power::Turkey) }
    else if i == 61 { None }
    else if i == 62 { None }
    else if i == 63 { None }
    else if i == 64 { Some(Power::Russia) }
    else if i == 65 { None }
    else if i == 66 { None }
    else if i == 67 { None }
    else if i == 68 { Some(Power::Turkey) }
    else if i == 69 { Some(Power::Austria) }
    else if i == 70 { None }
    else if i == 71 { Some(Power::Italy) }
    else if i == 72 { Some(Power::Austria) }
    else if i == 73 { None }
    else if i == 74 { Some(Power::Russia) }
    else if i == 75 { Some(Power::Italy) }
    else if i == 76 { Some(Power::Austria) }
    else if i == 77 { Some(Power::England) }
    else if i == 78 { Some(Power::Russia) }
    else if i == 79 { None }
    else if i == 80 { Some(Power::England) }
    else { None }
}

/// Position of the province that a coast belongs to (itself for an undivided province).
pub open spec fn spec_area(i: int) -> int {
    if i == 0 { 0 }
    else if i == 1 { 1 }
    else if i == 2 { 2 }
    else if i == 3 { 3 }
    else if i == 4 { 4 }
    else if i == 5 { 5 }
    else if i == 6 { 6 }
    else if i == 7 { 7 }
    else if i == 8 { 8 }
    else if i == 9 { 9 }
    else if i == 10 { 10 }
    else if i == 11 { 11 }
    else if i == 12 { 12 }
    else if i == 13 { 13 }
    else if i == 14 { 14 }
    else if i == 15 { 15 }
    else if i == 16 { 15 }
    else if i == 17 { 15 }
    else if i == 18 { 18 }
    else if i == 19 { 19 }
    else if i == 20 { 20 }
    else if i == 21 { 21 }
    else if i == 22 { 22 }
    else if i == 23 { 23 }
    else if i == 24 { 24 }
    else if i == 25 { 25 }
    else if i == 26 { 26 }
    else if i == 27 { 27 }
    else if i == 28 { 28 }
    else if i == 29 { 29 }
    else if i == 30 { 30 }
    else if i == 31 { 31 }
    else if i == 32 { 32 }
    else if i == 33 { 33 }
    else if i == 34 { 34 }
    else if i == 35 { 35 }
    else if i == 36 { 36 }
    else if i == 37 { 37 }
    else if i == 38 { 38 }
    else if i == 39 { 39 }
    else if i == 40 { 40 }
    else if i == 41 { 41 }
    else if i == 42 { 42 }
    else if i == 43 { 43 }
    else if i == 44 { 44 }
    else if i == 45 { 45 }
    else if i == 46 { 46 }
    else if i == 47 { 47 }
    else if i == 48 { 48 }
    else if i == 49 { 49 }
    else if i == 50 { 50 }
    else if i == 51 { 51 }
    else if i == 52 { 52 }
    else if i == 53 { 53 }
    else if i == 54 { 54 }
    else if i == 55 { 55 }
    else if i == 56 { 56 }
    else if i == 57 { 57 }
    else if i == 58 { 58 }
    else if i == 59 { 59 }
    else if i == 60 { 60 }
    else if i == 61 { 61 }
    else if i == 62 { 61 }
    else if i == 63 { 61 }
    else if i == 64 { 64 }
    else if i == 65 { 64 }
    else if i == 66 { 64 }
    else if i == 67 { 67 }
    else if i == 68 { 68 }
    else if i == 69 { 69 }
    else if i == 70 { 70 }
    else if i == 71 { 71 }
    else if i == 72 { 72 }
    else if i == 73 { 73 }
    else if i == 74 { 74 }
    else if i == 75 { 75 }
    else if i == 76 { 76 }
    else if i == 77 { 77 }
    else if i == 78 { 78 }
    else if i == 79 { 79 }
    else if i == 80 { 80 }
    else { i }
}

/// Name of a terrain as the province table writes it.
pub open spec fn spec_terrain_name(t: Terrain) -> Seq<char> {
    match t {
        Terrain::Water => "Water"@,
        Terrain::Coast => "Coast"@,
        Terrain::Inland => "Inland"@,
    }
}

impl Province {
    #[verifier::type_invariant]
    spec fn in_table(self) -> bool {
        self.0 < PROVINCE_COUNT
    }

    /// Position of the province in the table.
    pub closed spec fn index(self) -> int {
        self.0 as int
    }

    /// Position of the province in the table, below `PROVINCE_COUNT`.
    pub fn id(self) -> (r: u8)
        ensures
            r as int == self.index(),
            r < PROVINCE_COUNT,
    {
        proof { use_type_invariant(&self); }
        self.0
    }

    /// The province at a position of the table.
    pub fn from_id(i: u8) -> (r: Province)
        requires
            i < PROVINCE_COUNT,
        ensures
            r.index() == i as int,
    {
        Province(i)
    }


    /// Code of the province (`"lon"`, `"spa_nc"`, ...).
    pub fn code(self) -> (r: &'static str)
        ensures
            r@ == spec_code(self.index()),
    {
        proof { use_type_invariant(&self); }
        match self.0 {
            0 => "adr",
            1 => "aeg",
            2 => "alb",
            3 => "ank",
            4 => "apu",
            5 => "arm",
            6 => "bal",
            7 => "bar",
            8 => "bel",
            9 => "ber",
            10 => "bla",
            11 => "boh",
            12 => "bot",
            13 => "bre",
            14 => "bud",
            15 => "bul",
            16 => "bul_ec",
            17 => "bul_sc",
            18 => "bur",
            19 => "cly",
            20 => "con",
            21 => "den",
            22 => "eas",
            23 => "edi",
            24 => "eng",
            25 => "fin",
            26 => "gal",
            27 => "gas",
            28 => "gre",
            29 => "hel",
            30 => "hol",
            31 => "ion",
            32 => "iri",
            33 => "kie",
            34 => "lon",
            35 => "lvn",
            36 => "lvp",
            37 => "lyo",
            38 => "mao",
            39 => "mar",
            40 => "mos",
            41 => "mun",
            42 => "naf",
            43 => "nao",
            44 => "nap",
            45 => "nth",
            46 => "nwg",
            47 => "nwy",
            48 => "par",
            49 => "pic",
            50 => "pie",
            51 => "por",
            52 => "pru",
            53 => "rom",
            54 => "ruh",
            55 => "rum",
            56 => "ser",
            57 => "sev",
            58 => "sil",
            59 => "ska",
            60 => "smy",
            61 => "spa",
            62 => "spa_nc",
            63 => "spa_sc",
            64 => "stp",
            65 => "stp_nc",
            66 => "stp_sc",
            67 => "swe",
            68 => "syr",
            69 => "tri",
            70 => "tun",
            71 => "tus",
            72 => "tyr",
            73 => "tys",
            74 => "ukr",
            75 => "ven",
            76 => "vie",
            77 => "wal",
            78 => "war",
            79 => "wes",
            80 => "yor",
            _ => "yor",
        }
    }

    /// English name of the province.
    pub fn full_name(self) -> (r: &'static str)
        ensures
            r@ == spec_full_name(self.index()),
    {
        proof { use_type_invariant(&self); }
        match self.0 {
            0 => "Adriatic Water",
            1 => "Aegean Water",
            2 => "Albania",
            3 => "Ankara",
            4 => "Apulia",
            5 => "Armenia",
            6 => "Baltic Water",
            7 => "Barents Water",
            8 => "Belgium",
            9 => "Berlin",
            10 => "Black Water",
            11 => "Bohemia",
            12 => "Gulf of Bothnia",
            13 => "Brest",
            14 => "Budapest",
            15 => "Bulgaria",
            16 => "Bulgaria(EC)",
            17 => "Bulgaria(SC)",
            18 => "Burgundy",
            19 => "Clyde",
            20 => "Constantinople",
            21 => "Denmark",
            22 => "Eastern Mediterranean",
            23 => "Edinburgh",
            24 => "English Channel",
            25 => "Finland",
            26 => "Galicia",
            27 => "Gascony",
            28 => "Greece",
            29 => "Helgoland Bight",
            30 => "Holland",
            31 => "Ionian Water",
            32 => "Irish Water",
            33 => "Kiel",
            34 => "London",
            35 => "Livonia",
            36 => "Liverpool",
            37 => "Gulf of Lyon",
            38 => "Mid-Atlantic Ocean",
            39 => "Marseilles",
            40 => "Moscow",
            41 => "Munich",
            42 => "North Africa",
            43 => "North Atlantic Ocean",
            44 => "Naples",
            45 => "North Water",
            46 => "Norwegian Water",
            47 => "Norway",
            48 => "Paris",
            49 => "Picardy",
            50 => "Piedmont",
            51 => "Portugal",
            52 => "Prussia",
            53 => "Rome",
            54 => "Ruhr",
            55 => "Rumania",
            56 => "Serbia",
            57 => "Sevastopol",
            58 => "Silesia",
            59 => "Skagerrak",
            60 => "Smyrna",
            61 => "Spain",
            62 => "Spain(NC)",
            63 => "Spain(SC)",
            64 => "St. Petersburg",
            65 => "St. Petersburg(NC)",
            66 => "St. Petersburg(SC)",
            67 => "Sweden",
            68 => "Syria",
            69 => "Trieste",
            70 => "Tunis",
            71 => "Tuscany",
            72 => "Tyrolia",
            73 => "Tyrrhenian Water",
            74 => "Ukraine",
            75 => "Venice",
            76 => "Vienna",
            77 => "Wales",
            78 => "Warsaw",
            79 => "Western Mediterranean",
            80 => "Yorkshire",
            _ => "Yorkshire",
        }
    }

    /// Japanese name of the province.
    pub fn jname(self) -> (r: &'static str)
        ensures
            r@ == spec_jname(self.index()),
    {
        proof { use_type_invariant(&self); }
        match self.0 {
            0 => "アドリア海",
            1 => "エーゲ海",
            2 => "アルバニア",
            3 => "アンカラ",
            4 => "アプリア",
            5 => "アルメニア",
            6 => "バルト海",
            7 => "バレンツ海",
            8 => "ベルギー",
            9 => "ベルリン",
            10 => "黒海",
            11 => "ボヘミア",
            12 => "ボスニア湾",
            13 => "ブレスト",
            14 => "ブダペスト",
            15 => "ブルガリア",
            16 => "ブルガリア(EC)",
            17 => "ブルガリア(SC)",
            18 => "ブルゴーニュ",
            19 => "クライド",
            20 => "コンスタンティノープル",
            21 => "デンマーク",
            22 => "東地中海",
            23 => "エディンバラ",
            24 => "イギリス海峡",
            25 => "フィンランド",
            26 => "ガリツィア",
            27 => "ガスコーニュ",
            28 => "ギリシア",
            29 => "ヘルゴラント湾",
            30 => "オランダ",
            31 => "イオニア海",
            32 => "アイリッシュ海",
            33 => "キール",
            34 => "ロンドン",
            35 => "リヴォニア",
            36 => "リヴァプール",
            37 => "リオン湾",
            38 => "中大西洋",
            39 => "マルセイユ",
            40 => "モスクワ",
            41 => "ミュンヘン",
            42 => "北アフリカ",
            43 => "北大西洋",
            44 => "ナポリ",
            45 => "北海",
            46 => "ノルウェー海",
            47 => "ノルウェー",
            48 => "パリ",
            49 => "ピカルディ",
            50 => "ピエモンテ",
            51 => "ポルトガル",
            52 => "プロイセン",
            53 => "ローマ",
            54 => "ルール",
            55 => "ルーマニア",
            56 => "セルビア",
            57 => "セヴァストポリ",
            58 => "シレジア",
            59 => "スカゲラク海峡",
            60 => "スミルナ",
            61 => "スペイン",
            62 => "スペイン(NC)",
            63 => "スペイン(SC)",
            64 => "サンクトペテルブルク",
            65 => "サンクトペテルブルク(NC)",
            66 => "サンクトペテルブルク(SC)",
            67 => "スウェーデン",
            68 => "シリア",
            69 => "トリエステ",
            70 => "チュニス",
            71 => "トスカーナ",
            72 => "ティロル",
            73 => "ティレニア海",
            74 => "ウクライナ",
            75 => "ヴェネツィア",
            76 => "ウィーン",
            77 => "ウェールズ",
            78 => "ワルシャワ",
            79 => "西地中海",
            80 => "ヨークシャー",
            _ => "ヨークシャー",
        }
    }

    /// Terrain of the province.
    pub fn terrain(self) -> (r: Terrain)
        ensures
            r == spec_terrain(self.index()),
    {
        proof { use_type_invariant(&self); }
        match self.0 {
            0 => Terrain::Water,
            1 => Terrain::Water,
            2 => Terrain::Coast,
            3 => Terrain::Coast,
            4 => Terrain::Coast,
            5 => Terrain::Coast,
            6 => Terrain::Water,
            7 => Terrain::Water,
            8 => Terrain::Coast,
            9 => Terrain::Coast,
            10 => Terrain::Water,
            11 => Terrain::Inland,
            12 => Terrain::Water,
            13 => Terrain::Coast,
            14 => Terrain::Inland,
            15 => Terrain::Coast,
            16 => Terrain::Coast,
            17 => Terrain::Coast,
            18 => Terrain::Inland,
            19 => Terrain::Coast,
            20 => Terrain::Coast,
            21 => Terrain::Coast,
            22 => Terrain::Water,
            23 => Terrain::Coast,
            24 => Terrain::Water,
            25 => Terrain::Coast,
            26 => Terrain::Inland,
            27 => Terrain::Coast,
            28 => Terrain::Coast,
            29 => Terrain::Water,
            30 => Terrain::Coast,
            31 => Terrain::Water,
            32 => Terrain::Water,
            33 => Terrain::Coast,
            34 => Terrain::Coast,
            35 => Terrain::Coast,
            36 => Terrain::Coast,
            37 => Terrain::Water,
            38 => Terrain::Water,
            39 => Terrain::Coast,
            40 => Terrain::Inland,
            41 => Terrain::Inland,
            42 => Terrain::Coast,
            43 => Terrain::Water,
            44 => Terrain::Coast,
            45 => Terrain::Water,
            46 => Terrain::Water,
            47 => Terrain::Coast,
            48 => Terrain::Inland,
            49 => Terrain::Coast,
            50 => Terrain::Coast,
            51 => Terrain::Coast,
            52 => Terrain::Coast,
            53 => Terrain::Coast,
            54 => Terrain::Inland,
            55 => Terrain::Coast,
            56 => Terrain::Inland,
            57 => Terrain::Coast,
            58 => Terrain::Inland,
            59 => Terrain::Water,
            60 => Terrain::Coast,
            61 => Terrain::Coast,
            62 => Terrain::Coast,
            63 => Terrain::Coast,
            64 => Terrain::Coast,
            65 => Terrain::Coast,
            66 => Terrain::Coast,
            67 => Terrain::Coast,
            68 => Terrain::Coast,
            69 => Terrain::Coast,
            70 => Terrain::Coast,
            71 => Terrain::Coast,
            72 => Terrain::Inland,
            73 => Terrain::Water,
            74 => Terrain::Inland,
            75 => Terrain::Coast,
            76 => Terrain::Inland,
            77 => Terrain::Coast,
            78 => Terrain::Inland,
            79 => Terrain::Water,
            80 => Terrain::Coast,
            _ => Terrain::Coast,
        }
    }

    /// Whether the province holds a supply center.
    pub fn is_supply_center(self) -> (r: bool)
        ensures
            r == spec_supply(self.index()),
    {
        proof { use_type_invariant(&self); }
        match self.0 {
            0 => false,
            1 => false,
            2 => false,
            3 => true,
            4 => false,
            5 => false,
            6 => false,
            7 => false,
            8 => true,
            9 => true,
            10 => false,
            11 => false,
            12 => false,
            13 => true,
            14 => true,
            15 => true,
            16 => false,
            17 => false,
            18 => false,
            19 => false,
            20 => true,
            21 => true,
            22 => false,
            23 => true,
            24 => false,
            25 => false,
            26 => false,
            27 => false,
            28 => true,
            29 => false,
            30 => true,
            31 => false,
            32 => false,
            33 => true,
            34 => true,
            35 => false,
            36 => true,
            37 => false,
            38 => false,
            39 => true,
            40 => true,
            41 => true,
            42 => false,
            43 => false,
            44 => true,
            45 => false,
            46 => false,
            47 => true,
            48 => true,
            49 => false,
            50 => false,
            51 => true,
            52 => false,
            53 => true,
            54 => false,
            55 => true,
            56 => true,
            57 => true,
            58 => false,
            59 => false,
            60 => true,
            61 => true,
            62 => false,
            63 => false,
            64 => true,
            65 => false,
            66 => false,
            67 => true,
            68 => false,
            69 => true,
            70 => true,
            71 => false,
            72 => false,
            73 => false,
            74 => false,
            75 => true,
            76 => true,
            77 => false,
            78 => true,
            79 => false,
            80 => false,
            _ => false,
        }
    }

    /// Home power of the province, if any.
    pub fn home_power(self) -> (r: Option<Power>)
        ensures
            r == spec_home(self.index()),
    {
        proof { use_type_invariant(&self); }
        match self.0 {
            0 => None,
            1 => None,
            2 => None,
            3 => Some(Power::Turkey),
            4 => Some(Power::Italy),
            5 => Some(Power::Turkey),
            6 => None,
            7 => None,
            8 => None,
            9 => Some(Power::Germany),
            10 => None,
            11 => Some(Power::Austria),
            12 => None,
            13 => Some(Power::France),
            14 => Some(Power::Austria),
            15 => None,
            16 => None,
            17 => None,
            18 => Some(Power::France),
            19 => Some(Power::England),
            20 => Some(Power::Turkey),
            21 => None,
            22 => None,
            23 => Some(Power::England),
            24 => None,
            25 => Some(Power::Russia),
            26 => Some(Power::Austria),
            27 => Some(Power::France),
            28 => None,
            29 => None,
            30 => None,
            31 => None,
            32 => None,
            33 => Some(Power::Germany),
            34 => Some(Power::England),
            35 => Some(Power::Russia),
            36 => Some(Power::England),
            37 => None,
            38 => None,
            39 => Some(Power::France),
            40 => Some(Power::Russia),
            41 => Some(Power::Germany),
            42 => None,
            43 => None,
            44 => Some(Power::Italy),
            45 => None,
            46 => None,
            47 => None,
            48 => Some(Power::France),
            49 => Some(Power::France),
            50 => Some(Power::Italy),
            51 => None,
            52 => Some(Power::Germany),
            53 => Some(Power::Italy),
            54 => Some(Power::Germany),
            55 => None,
            56 => None,
            57 => Some(Power::Russia),
            58 => Some(Power::Germany),
            59 => None,
            60 => Some(Power::Turkey),
            61 => None,
            62 => None,
            63 => None,
            64 => Some(Power::Russia),
            65 => None,
            66 => None,
            67 => None,
            68 => Some(Power::Turkey),
            69 => Some(Power::Austria),
            70 => None,
            71 => Some(Power::Italy),
            72 => Some(Power::Austria),
            73 => None,
            74 => Some(Power::Russia),
            75 => Some(Power::Italy),
            76 => Some(Power::Austria),
            77 => Some(Power::England),
            78 => Some(Power::Russia),
            79 => None,
            80 => Some(Power::England),
            _ => Some(Power::England),
        }
    }

    /// The province that a coast belongs to (the province itself when it is undivided).
    pub fn area(self) -> (r: Province)
        ensures
            r.index() == spec_area(self.index()),
    {
        proof { use_type_invariant(&self); }
        let a: u8 = match self.0 {
            0 => 0,
            1 => 1,
            2 => 2,
            3 => 3,
            4 => 4,
            5 => 5,
            6 => 6,
            7 => 7,
            8 => 8,
            9 => 9,
            10 => 10,
            11 => 11,
            12 => 12,
            13 => 13,
            14 => 14,
            15 => 15,
            16 => 15,
            17 => 15,
            18 => 18,
            19 => 19,
            20 => 20,
            21 => 21,
            22 => 22,
            23 => 23,
            24 => 24,
            25 => 25,
            26 => 26,
            27 => 27,
            28 => 28,
            29 => 29,
            30 => 30,
            31 => 31,
            32 => 32,
            33 => 33,
            34 => 34,
            35 => 35,
            36 => 36,
            37 => 37,
            38 => 38,
            39 => 39,
            40 => 40,
            41 => 41,
            42 => 42,
            43 => 43,
            44 => 44,
            45 => 45,
            46 => 46,
            47 => 47,
            48 => 48,
            49 => 49,
            50 => 50,
            51 => 51,
            52 => 52,
            53 => 53,
            54 => 54,
            55 => 55,
            56 => 56,
            57 => 57,
            58 => 58,
            59 => 59,
            60 => 60,
            61 => 61,
            62 => 61,
            63 => 61,
            64 => 64,
            65 => 64,
            66 => 64,
            67 => 67,
            68 => 68,
            69 => 69,
            70 => 70,
            71 => 71,
            72 => 72,
            73 => 73,
            74 => 74,
            75 => 75,
            76 => 76,
            77 => 77,
            78 => 78,
            79 => 79,
            80 => 80,
            _ => 0,
        };
        Province(a)
    }
}

} // verus!

verus! {

/// Whether the province at position `i` is a home supply center of `power`.
pub open spec fn spec_is_home_sc_at(i: int, power: Power) -> bool {
    spec_supply(i) && spec_home(i) == Some(power)
}

/// Two provinces at the same position of the table are the same province.
pub proof fn lemma_index_injective(a: Province, b: Province)
    ensures
        a.index() == b.index() <==> a == b,
{
}

impl Province {
    /// The province whose code is `code`, if there is one.
    pub fn from_code(code: &str) -> (r: Option<Province>)
        ensures
            match r {
                Some(p) => spec_code(p.index()) == code@ && forall|j: int|
                    0 <= j < p.index() ==> spec_code(j) != code@,
                None => forall|j: int| 0 <= j < PROVINCE_COUNT ==> spec_code(j) != code@,
            },
            r is Some ==> 0 <= r->0.index() < PROVINCE_COUNT,
    {
        let mut i: u8 = 0;
        while i < PROVINCE_COUNT
            invariant
                i <= PROVINCE_COUNT,
                forall|j: int| 0 <= j < i ==> spec_code(j) != code@,
            decreases PROVINCE_COUNT - i,
        {
            let p = Province(i);
            if str_eq(p.code(), code) {
                return Some(p);
            }
            i = i + 1;
        }
        None
    }

    /// Every province of the map, in table order.
    pub fn all() -> (r: Vec<Province>)
        ensures
            r@.len() == PROVINCE_COUNT,
            forall|j: int| 0 <= j < PROVINCE_COUNT ==> #[trigger] r@[j].index() == j,
    {
        let mut r: Vec<Province> = Vec::new();
        let mut i: u8 = 0;
        while i < PROVINCE_COUNT
            invariant
                i <= PROVINCE_COUNT,
                r@.len() == i,
                forall|j: int| 0 <= j < i ==> #[trigger] r@[j].index() == j,
            decreases PROVINCE_COUNT - i,
        {
            r.push(Province(i));
            i = i + 1;
        }
        r
    }

    /// Name of the terrain of the province (`"Water"`, `"Coast"` or `"Inland"`).
    pub fn kind(self) -> (r: &'static str)
        ensures
            r@ == spec_terrain_name(spec_terrain(self.index())),
    {
        match self.terrain() {
            Terrain::Water => "Water",
            Terrain::Coast => "Coast",
            Terrain::Inland => "Inland",
        }
    }

    /// Symbol of the home power of the province, if any.
    pub fn home(self) -> (r: Option<&'static str>)
        ensures
            match spec_home(self.index()) {
                Some(p) => r is Some && r->0@ == spec_symbol(p),
                None => r is None,
            },
    {
        match self.home_power() {
            Some(p) => Some(p.symbol()),
            None => None,
        }
    }

    /// The whole table entry of the province.
    pub fn data(self) -> (r: ProvinceData)
        ensures
            r.code@ == spec_code(self.index()),
            r.full@ == spec_full_name(self.index()),
            r.jname@ == spec_jname(self.index()),
            r.kind@ == spec_terrain_name(spec_terrain(self.index())),
            r.supply == spec_supply(self.index()),
            r.home is Some == spec_home(self.index()) is Some,
            spec_home(self.index()) is Some ==> r.home->0@ == spec_symbol(
                spec_home(self.index())->0,
            ),
    {
        ProvinceData {
            code: self.code(),
            full: self.full_name(),
            jname: self.jname(),
            kind: self.kind(),
            supply: self.is_supply_center(),
            home: self.home(),
        }
    }

    /// Whether the province is open water.
    pub fn is_water(self) -> (r: bool)
        ensures
            r == (spec_terrain(self.index()) == Terrain::Water),
    {
        self.terrain() == Terrain::Water
    }

    /// Whether the province is a coastal land province.
    pub fn is_coast(self) -> (r: bool)
        ensures
            r == (spec_terrain(self.index()) == Terrain::Coast),
    {
        self.terrain() == Terrain::Coast
    }

    /// Whether the province is an inland province.
    pub fn is_inland(self) -> (r: bool)
        ensures
            r == (spec_terrain(self.index()) == Terrain::Inland),
    {
        self.terrain() == Terrain::Inland
    }

    /// Whether `code` names a supply center that is a home center of `power`.
    pub fn is_home_sc(code: &str, power: &Power) -> (r: bool)
        ensures
            r == exists|j: int|
                0 <= j < PROVINCE_COUNT && spec_code(j) == code@ && #[trigger] spec_is_home_sc_at(
                    j,
                    *power,
                ),
    {
        let mut i: u8 = 0;
        while i < PROVINCE_COUNT
            invariant
                i <= PROVINCE_COUNT,
                forall|j: int|
                    0 <= j < i ==> !(spec_code(j) == code@ && #[trigger] spec_is_home_sc_at(
                        j,
                        *power,
                    )),
            decreases PROVINCE_COUNT - i,
        {
            let p = Province(i);
            if p.is_supply_center() && p.home_power() == Some(*power) && str_eq(p.code(), code) {
                assert(spec_is_home_sc_at(i as int, *power));
                return true;
            }
            i = i + 1;
        }
        false
    }

    /// Whether two provinces are parts of the same province (equal, or coasts of one province).
    pub fn same_area(self, other: Province) -> (r: bool)
        ensures
            r == (spec_area(self.index()) == spec_area(other.index())),
    {
        self.area().id() == other.area().id()
    }
}

/// Rank of the English name of the province at position `i` in the alphabetical order of the lower-cased names.
pub open spec fn spec_name_rank(i: int) -> int {
    if i == 0 { 0 }
    else if i == 1 { 1 }
    else if i == 2 { 2 }
    else if i == 3 { 3 }
    else if i == 4 { 4 }
    else if i == 5 { 5 }
    else if i == 6 { 6 }
    else if i == 7 { 7 }
    else if i == 8 { 8 }
    else if i == 9 { 9 }
    else if i == 10 { 10 }
    else if i == 11 { 11 }
    else if i == 12 { 28 }
    else if i == 13 { 12 }
    else if i == 14 { 13 }
    else if i == 15 { 14 }
    else if i == 16 { 15 }
    else if i == 17 { 16 }
    else if i == 18 { 17 }
    else if i == 19 { 18 }
    else if i == 20 { 19 }
    else if i == 21 { 20 }
    else if i == 22 { 21 }
    else if i == 23 { 22 }
    else if i == 24 { 23 }
    else if i == 25 { 24 }
    else if i == 26 { 25 }
    else if i == 27 { 26 }
    else if i == 28 { 27 }
    else if i == 29 { 30 }
    else if i == 30 { 31 }
    else if i == 31 { 32 }
    else if i == 32 { 33 }
    else if i == 33 { 34 }
    else if i == 34 { 37 }
    else if i == 35 { 36 }
    else if i == 36 { 35 }
    else if i == 37 { 29 }
    else if i == 38 { 39 }
    else if i == 39 { 38 }
    else if i == 40 { 40 }
    else if i == 41 { 41 }
    else if i == 42 { 43 }
    else if i == 43 { 44 }
    else if i == 44 { 42 }
    else if i == 45 { 45 }
    else if i == 46 { 47 }
    else if i == 47 { 46 }
    else if i == 48 { 48 }
    else if i == 49 { 49 }
    else if i == 50 { 50 }
    else if i == 51 { 51 }
    else if i == 52 { 52 }
    else if i == 53 { 53 }
    else if i == 54 { 54 }
    else if i == 55 { 55 }
    else if i == 56 { 56 }
    else if i == 57 { 57 }
    else if i == 58 { 58 }
    else if i == 59 { 59 }
    else if i == 60 { 60 }
    else if i == 61 { 61 }
    else if i == 62 { 62 }
    else if i == 63 { 63 }
    else if i == 64 { 64 }
    else if i == 65 { 65 }
    else if i == 66 { 66 }
    else if i == 67 { 67 }
    else if i == 68 { 68 }
    else if i == 69 { 69 }
    else if i == 70 { 70 }
    else if i == 71 { 71 }
    else if i == 72 { 72 }
    else if i == 73 { 73 }
    else if i == 74 { 74 }
    else if i == 75 { 75 }
    else if i == 76 { 76 }
    else if i == 77 { 77 }
    else if i == 78 { 78 }
    else if i == 79 { 79 }
    else if i == 80 { 80 }
    else { 0 }
}

/// Rank of the English name of the province at position `i` in the alphabetical order of the lower-cased names.
pub fn name_rank(i: u8) -> (r: u8)
    ensures
        r == spec_name_rank(i as int),
{
    match i {
        0 => 0,
        1 => 1,
        2 => 2,
        3 => 3,
        4 => 4,
        5 => 5,
        6 => 6,
        7 => 7,
        8 => 8,
        9 => 9,
        10 => 10,
        11 => 11,
        12 => 28,
        13 => 12,
        14 => 13,
        15 => 14,
        16 => 15,
        17 => 16,
        18 => 17,
        19 => 18,
        20 => 19,
        21 => 20,
        22 => 21,
        23 => 22,
        24 => 23,
        25 => 24,
        26 => 25,
        27 => 26,
        28 => 27,
        29 => 30,
        30 => 31,
        31 => 32,
        32 => 33,
        33 => 34,
        34 => 37,
        35 => 36,
        36 => 35,
        37 => 29,
        38 => 39,
        39 => 38,
        40 => 40,
        41 => 41,
        42 => 43,
        43 => 44,
        44 => 42,
        45 => 45,
        46 => 47,
        47 => 46,
        48 => 48,
        49 => 49,
        50 => 50,
        51 => 51,
        52 => 52,
        53 => 53,
        54 => 54,
        55 => 55,
        56 => 56,
        57 => 57,
        58 => 58,
        59 => 59,
        60 => 60,
        61 => 61,
        62 => 62,
        63 => 63,
        64 => 64,
        65 => 65,
        66 => 66,
        67 => 67,
        68 => 68,
        69 => 69,
        70 => 70,
        71 => 71,
        72 => 72,
        73 => 73,
        74 => 74,
        75 => 75,
        76 => 76,
        77 => 77,
        78 => 78,
        79 => 79,
        80 => 80,
        _ => 0,
    }
}

/// Every code of the table has at least three characters, the first three
/// naming the province that it belongs to.
pub proof fn lemma_code_len(i: int)
    requires
        0 <= i < PROVINCE_COUNT,
    ensures
        spec_code(i).len() >= 3,
{
    reveal_strlit("adr");
    reveal_strlit("aeg");
    reveal_strlit("alb");
    reveal_strlit("ank");
    reveal_strlit("apu");
    reveal_strlit("arm");
    reveal_strlit("bal");
    reveal_strlit("bar");
    reveal_strlit("bel");
    reveal_strlit("ber");
    reveal_strlit("bla");
    reveal_strlit("boh");
    reveal_strlit("bot");
    reveal_strlit("bre");
    reveal_strlit("bud");
    reveal_strlit("bul");
    reveal_strlit("bul_ec");
    reveal_strlit("bul_sc");
    reveal_strlit("bur");
    reveal_strlit("cly");
    reveal_strlit("con");
    reveal_strlit("den");
    reveal_strlit("eas");
    reveal_strlit("edi");
    reveal_strlit("eng");
    reveal_strlit("fin");
    reveal_strlit("gal");
    reveal_strlit("gas");
    reveal_strlit("gre");
    reveal_strlit("hel");
    reveal_strlit("hol");
    reveal_strlit("ion");
    reveal_strlit("iri");
    reveal_strlit("kie");
    reveal_strlit("lon");
    reveal_strlit("lvn");
    reveal_strlit("lvp");
    reveal_strlit("lyo");
    reveal_strlit("mao");
    reveal_strlit("mar");
    reveal_strlit("mos");
    reveal_strlit("mun");
    reveal_strlit("naf");
    reveal_strlit("nao");
    reveal_strlit("nap");
    reveal_strlit("nth");
    reveal_strlit("nwg");
    reveal_strlit("nwy");
    reveal_strlit("par");
    reveal_strlit("pic");
    reveal_strlit("pie");
    reveal_strlit("por");
    reveal_strlit("pru");
    reveal_strlit("rom");
    reveal_strlit("ruh");
    reveal_strlit("rum");
    reveal_strlit("ser");
    reveal_strlit("sev");
    reveal_strlit("sil");
    reveal_strlit("ska");
    reveal_strlit("smy");
    reveal_strlit("spa");
    reveal_strlit("spa_nc");
    reveal_strlit("spa_sc");
    reveal_strlit("stp");
    reveal_strlit("stp_nc");
    reveal_strlit("stp_sc");
    reveal_strlit("swe");
    reveal_strlit("syr");
    reveal_strlit("tri");
    reveal_strlit("tun");
    reveal_strlit("tus");
    reveal_strlit("tyr");
    reveal_strlit("tys");
    reveal_strlit("ukr");
    reveal_strlit("ven");
    reveal_strlit("vie");
    reveal_strlit("wal");
    reveal_strlit("war");
    reveal_strlit("wes");
    reveal_strlit("yor");
}

/// A number that tells the codes of the table apart: their first three
/// characters, and the fifth one for the codes of coasts.
pub open spec fn code_key(s: Seq<char>) -> int {
    (s[0] as int) * 16777216 + (s[1] as int) * 65536 + (s[2] as int) * 256 + if s.len() > 4 {
        s[4] as int
    } else {
        0
    }
}

/// The key of the code of the province at position `i`.
pub open spec fn spec_code_key(i: int) -> int {
    if i == 0 { 1633972736 }
    else if i == 1 { 1634035456 }
    else if i == 2 { 1634492928 }
    else if i == 3 { 1634626304 }
    else if i == 4 { 1634759936 }
    else if i == 5 { 1634888960 }
    else if i == 6 { 1650551808 }
    else if i == 7 { 1650553344 }
    else if i == 8 { 1650813952 }
    else if i == 9 { 1650815488 }
    else if i == 10 { 1651269888 }
    else if i == 11 { 1651468288 }
    else if i == 12 { 1651471360 }
    else if i == 13 { 1651664128 }
    else if i == 14 { 1651860480 }
    else if i == 15 { 1651862528 }
    else if i == 16 { 1651862629 }
    else if i == 17 { 1651862643 }
    else if i == 18 { 1651864064 }
    else if i == 19 { 1668053248 }
    else if i == 20 { 1668247040 }
    else if i == 21 { 1684368896 }
    else if i == 22 { 1700885248 }
    else if i == 23 { 1701079296 }
    else if i == 24 { 1701734144 }
    else if i == 25 { 1718185472 }
    else if i == 26 { 1734437888 }
    else if i == 27 { 1734439680 }
    else if i == 28 { 1735550208 }
    else if i == 29 { 1751477248 }
    else if i == 30 { 1752132608 }
    else if i == 31 { 1768910336 }
    else if i == 32 { 1769105664 }
    else if i == 33 { 1802069248 }
    else if i == 34 { 1819241984 }
    else if i == 35 { 1819700736 }
    else if i == 36 { 1819701248 }
    else if i == 37 { 1819897600 }
    else if i == 38 { 1835101952 }
    else if i == 39 { 1835102720 }
    else if i == 40 { 1836020480 }
    else if i == 41 { 1836412416 }
    else if i == 42 { 1851876864 }
    else if i == 43 { 1851879168 }
    else if i == 44 { 1851879424 }
    else if i == 45 { 1853122560 }
    else if i == 46 { 1853318912 }
    else if i == 47 { 1853323520 }
    else if i == 48 { 1885434368 }
    else if i == 49 { 1885954816 }
    else if i == 50 { 1885955328 }
    else if i == 51 { 1886351872 }
    else if i == 52 { 1886549248 }
    else if i == 53 { 1919905024 }
    else if i == 54 { 1920296960 }
    else if i == 55 { 1920298240 }
    else if i == 56 { 1936028160 }
    else if i == 57 { 1936029184 }
    else if i == 58 { 1936288768 }
    else if i == 59 { 1936417024 }
    else if i == 60 { 1936554240 }
    else if i == 61 { 1936744704 }
    else if i == 62 { 1936744814 }
    else if i == 63 { 1936744819 }
    else if i == 64 { 1937010688 }
    else if i == 65 { 1937010798 }
    else if i == 66 { 1937010803 }
    else if i == 67 { 1937204480 }
    else if i == 68 { 1937338880 }
    else if i == 69 { 1953655040 }
    else if i == 70 { 1953852928 }
    else if i == 71 { 1953854208 }
    else if i == 72 { 1954116096 }
    else if i == 73 { 1954116352 }
    else if i == 74 { 1969975808 }
    else if i == 75 { 1986358784 }
    else if i == 76 { 1986618624 }
    else if i == 77 { 2002873344 }
    else if i == 78 { 2002874880 }
    else if i == 79 { 2003137280 }
    else if i == 80 { 2037346816 }
    else { 0 }
}

/// The key of each code is the one of the table.
proof fn lemma_code_key(i: int)
    requires
        0 <= i < PROVINCE_COUNT,
    ensures
        code_key(spec_code(i)) == spec_code_key(i),
{
    reveal_strlit("adr");
    reveal_strlit("aeg");
    reveal_strlit("alb");
    reveal_strlit("ank");
    reveal_strlit("apu");
    reveal_strlit("arm");
    reveal_strlit("bal");
    reveal_strlit("bar");
    reveal_strlit("bel");
    reveal_strlit("ber");
    reveal_strlit("bla");
    reveal_strlit("boh");
    reveal_strlit("bot");
    reveal_strlit("bre");
    reveal_strlit("bud");
    reveal_strlit("bul");
    reveal_strlit("bul_ec");
    reveal_strlit("bul_sc");
    reveal_strlit("bur");
    reveal_strlit("cly");
    reveal_strlit("con");
    reveal_strlit("den");
    reveal_strlit("eas");
    reveal_strlit("edi");
    reveal_strlit("eng");
    reveal_strlit("fin");
    reveal_strlit("gal");
    reveal_strlit("gas");
    reveal_strlit("gre");
    reveal_strlit("hel");
    reveal_strlit("hol");
    reveal_strlit("ion");
    reveal_strlit("iri");
    reveal_strlit("kie");
    reveal_strlit("lon");
    reveal_strlit("lvn");
    reveal_strlit("lvp");
    reveal_strlit("lyo");
    reveal_strlit("mao");
    reveal_strlit("mar");
    reveal_strlit("mos");
    reveal_strlit("mun");
    reveal_strlit("naf");
    reveal_strlit("nao");
    reveal_strlit("nap");
    reveal_strlit("nth");
    reveal_strlit("nwg");
    reveal_strlit("nwy");
    reveal_strlit("par");
    reveal_strlit("pic");
    reveal_strlit("pie");
    reveal_strlit("por");
    reveal_strlit("pru");
    reveal_strlit("rom");
    reveal_strlit("ruh");
    reveal_strlit("rum");
    reveal_strlit("ser");
    reveal_strlit("sev");
    reveal_strlit("sil");
    reveal_strlit("ska");
    reveal_strlit("smy");
    reveal_strlit("spa");
    reveal_strlit("spa_nc");
    reveal_strlit("spa_sc");
    reveal_strlit("stp");
    reveal_strlit("stp_nc");
    reveal_strlit("stp_sc");
    reveal_strlit("swe");
    reveal_strlit("syr");
    reveal_strlit("tri");
    reveal_strlit("tun");
    reveal_strlit("tus");
    reveal_strlit("tyr");
    reveal_strlit("tys");
    reveal_strlit("ukr");
    reveal_strlit("ven");
    reveal_strlit("vie");
    reveal_strlit("wal");
    reveal_strlit("war");
    reveal_strlit("wes");
    reveal_strlit("yor");
}

/// No two provinces of the table have the same code.
pub proof fn lemma_codes_distinct(i: int, j: int)
    requires
        0 <= i < PROVINCE_COUNT,
        0 <= j < PROVINCE_COUNT,
        spec_code(i) == spec_code(j),
    ensures
        i == j,
{
    lemma_code_key(i);
    lemma_code_key(j);
}

/// A code names one province only: two provinces with the same code are the same province.
pub proof fn law_code_identifies_province(p: Province, q: Province)
    requires
        0 <= p.index() < PROVINCE_COUNT,
        0 <= q.index() < PROVINCE_COUNT,
        spec_code(p.index()) == spec_code(q.index()),
    ensures
        p == q,
{
    lemma_codes_distinct(p.index(), q.index());
    lemma_index_injective(p, q);
}

/// The province that a coast belongs to is in the table.
pub proof fn lemma_area_range(i: int)
    requires
        0 <= i < PROVINCE_COUNT,
    ensures
        0 <= spec_area(i) < PROVINCE_COUNT,
{
}

} // verus!
