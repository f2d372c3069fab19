//! UI language selection and the translation tables for every user-facing
//! string of the dashboard. Arabic strings are kept in normal logical-order
//! Unicode and shaped for display by [`crate::arabic`].

use vstd::prelude::*;

verus! {

/// The UI languages the dashboard can render in.
///
/// The declaration order gives each language its persisted byte (see
/// [`Language::to_u8`]): Turkish 0, English 1, Nederlands 2, Arabic 3. The
/// numbering must stay stable.
#[derive(Clone, Copy, Debug, PartialEq, Eq, Structural)]
pub enum Language {
    Turkish,
    English,
    Nederlands,
    Arabic,
}

impl Default for Language {
    /// Türkçe is the historical default.
    fn default() -> (l: Self)
        ensures
            l == Language::Turkish,
    {
        Language::Turkish
    }
}

/// The persisted byte of each language.
pub open spec fn language_byte(l: Language) -> u8 {
    match l {
        Language::Turkish => 0,
        Language::English => 1,
        Language::Nederlands => 2,
        Language::Arabic => 3,
    }
}

/// The language a persisted byte stands for; unknown bytes fall back to the
/// default (Turkish).
pub open spec fn byte_language(b: u8) -> Language {
    if b == 1 {
        Language::English
    } else if b == 2 {
        Language::Nederlands
    } else if b == 3 {
        Language::Arabic
    } else {
        Language::Turkish
    }
}

impl Language {
    /// Stable byte used for persistence: the language's position in the
    /// declaration.
    pub fn to_u8(self) -> (b: u8)
        ensures
            b == language_byte(self),
    {
        match self {
            Language::Turkish => 0,
            Language::English => 1,
            Language::Nederlands => 2,
            Language::Arabic => 3,
        }
    }

    /// Inverse of [`Self::to_u8`]; unknown bytes fall back to the default.
    pub fn from_u8(value: u8) -> (l: Self)
        ensures
            l == byte_language(value),
    {
        match value {
            1 => Language::English,
            2 => Language::Nederlands,
            3 => Language::Arabic,
            _ => Language::Turkish,
        }
    }

    /// `true` for right-to-left scripts (only Arabic). Callers use this to
    /// decide text alignment and whether to run the Arabic shaper.
    pub fn is_rtl(self) -> (r: bool)
        ensures
            r == (self == Language::Arabic),
    {
        match self {
            Language::Arabic => true,
            _ => false,
        }
    }

    /// The selectable languages, in the order the settings screen lists them:
    /// alphabetical by endonym — العربية, English, Nederlands, Türkçe.
    pub const ALL: [Language; 4] = [Language::Arabic, Language::English, Language::Nederlands, Language::Turkish];
}

/// Turkish prayer names.
pub const PRAYER_NAMES_TR: [&'static str; 5] = ["İMSAK", "ÖĞLE", "İKİNDİ", "AKŞAM", "YATSI"];

/// English prayer names.
pub const PRAYER_NAMES_EN: [&'static str; 5] = ["FAJR", "DHUHR", "ASR", "MAGHRIB", "ISHA"];

/// Dutch prayer names.
pub const PRAYER_NAMES_NL: [&'static str; 5] = ["FAJR", "DHUHR", "ASR", "MAGHRIB", "ISHA"];

/// Arabic prayer names.
pub const PRAYER_NAMES_AR: [&'static str; 5] = ["الفجر", "الظهر", "العصر", "المغرب", "العشاء"];

/// The prayer-name table of a language.
pub open spec fn prayer_table(lang: Language) -> [&'static str; 5] {
    match lang {
        Language::Turkish => PRAYER_NAMES_TR,
        Language::English => PRAYER_NAMES_EN,
        Language::Nederlands => PRAYER_NAMES_NL,
        Language::Arabic => PRAYER_NAMES_AR,
    }
}

/// The 5 daily prayer names, indexed the same as
/// [`crate::prayer_times::DayTimes::prayers`] (İmsak, Öğle, İkindi, Akşam,
/// Yatsı).
pub fn prayer_names(lang: Language) -> (names: [&'static str; 5])
    ensures
        names == prayer_table(lang),
{
    match lang {
        Language::Turkish => PRAYER_NAMES_TR,
        Language::English => PRAYER_NAMES_EN,
        Language::Nederlands => PRAYER_NAMES_NL,
        Language::Arabic => PRAYER_NAMES_AR,
    }
}

/// Turkish weekday names, Sunday first.
pub const WEEKDAY_NAMES_TR: [&'static str; 7] = ["PAZAR", "PAZARTESİ", "SALI", "ÇARŞAMBA", "PERŞEMBE", "CUMA", "CUMARTESİ"];

/// English weekday names, Sunday first.
pub const WEEKDAY_NAMES_EN: [&'static str; 7] = ["SUNDAY", "MONDAY", "TUESDAY", "WEDNESDAY", "THURSDAY", "FRIDAY", "SATURDAY"];

/// Dutch weekday names, Sunday first.
pub const WEEKDAY_NAMES_NL: [&'static str; 7] = ["ZONDAG", "MAANDAG", "DINSDAG", "WOENSDAG", "DONDERDAG", "VRIJDAG", "ZATERDAG"];

/// Arabic weekday names, Sunday first.
pub const WEEKDAY_NAMES_AR: [&'static str; 7] = ["الأحد", "الإثنين", "الثلاثاء", "الأربعاء", "الخميس", "الجمعة", "السبت"];

/// The weekday-name table of a language.
pub open spec fn weekday_table(lang: Language) -> [&'static str; 7] {
    match lang {
        Language::Turkish => WEEKDAY_NAMES_TR,
        Language::English => WEEKDAY_NAMES_EN,
        Language::Nederlands => WEEKDAY_NAMES_NL,
        Language::Arabic => WEEKDAY_NAMES_AR,
    }
}

/// Weekday names indexed 0 = Sunday .. 6 = Saturday.
pub fn weekday_names(lang: Language) -> (names: [&'static str; 7])
    ensures
        names == weekday_table(lang),
{
    match lang {
        Language::Turkish => WEEKDAY_NAMES_TR,
        Language::English => WEEKDAY_NAMES_EN,
        Language::Nederlands => WEEKDAY_NAMES_NL,
        Language::Arabic => WEEKDAY_NAMES_AR,
    }
}

/// Every fixed, non-parametric UI string, keyed so each has exactly one
/// translation per language.
#[derive(Clone, Copy, Debug, PartialEq, Eq, Structural)]
pub enum Msg {
    // Splash / status
    AppTitle,
    Starting,
    WifiConnecting,
    WifiConnectFailed,
    Restarting,
    TimeSyncing,
    PrayerDownloading,
    PrayerFetchFailed,
    RetryingInBackground,
    PrayerDownloadFailed,
    Retrying,
    PrayerDataMissing,
    // Dashboard
    NextPrayer,
    // Settings screen
    SettingsTitle,
    LanguageHeading,
    DateHeading,
    DateMiladi,
    DateHijri,
    SystemHeading,
    WifiMenu,
    RecalibrateTouch,
    // WiFi setup flow
    WifiSetupTitle,
    WifiScanning,
    WifiSelectNetwork,
    WifiEnterManually,
    WifiRescan,
    WifiNoNetworks,
    WifiEnterSsid,
    WifiEnterPassword,
    WifiReconnecting,
    WifiPasswordTooShort,
    KeySpace,
    KeyDone,
    // Touch calibration wizard
    CalTitle,
    CalTapCrosshair,
    CalComplete,
    CalFailed,
    CalRetry,
    CalSkipped,
    CalUsingDefaults,
    CalRecalibrating,
}

/// The row of `msg` in the translation tables.
pub open spec fn msg_index(msg: Msg) -> int {
    match msg {
        Msg::AppTitle => 0,
        Msg::Starting => 1,
        Msg::WifiConnecting => 2,
        Msg::WifiConnectFailed => 3,
        Msg::Restarting => 4,
        Msg::TimeSyncing => 5,
        Msg::PrayerDownloading => 6,
        Msg::PrayerFetchFailed => 7,
        Msg::RetryingInBackground => 8,
        Msg::PrayerDownloadFailed => 9,
        Msg::Retrying => 10,
        Msg::PrayerDataMissing => 11,
        Msg::NextPrayer => 12,
        Msg::SettingsTitle => 13,
        Msg::LanguageHeading => 14,
        Msg::DateHeading => 15,
        Msg::DateMiladi => 16,
        Msg::DateHijri => 17,
        Msg::SystemHeading => 18,
        Msg::WifiMenu => 19,
        Msg::RecalibrateTouch => 20,
        Msg::WifiSetupTitle => 21,
        Msg::WifiScanning => 22,
        Msg::WifiSelectNetwork => 23,
        Msg::WifiEnterManually => 24,
        Msg::WifiRescan => 25,
        Msg::WifiNoNetworks => 26,
        Msg::WifiEnterSsid => 27,
        Msg::WifiEnterPassword => 28,
        Msg::WifiReconnecting => 29,
        Msg::WifiPasswordTooShort => 30,
        Msg::KeySpace => 31,
        Msg::KeyDone => 32,
        Msg::CalTitle => 33,
        Msg::CalTapCrosshair => 34,
        Msg::CalComplete => 35,
        Msg::CalFailed => 36,
        Msg::CalRetry => 37,
        Msg::CalSkipped => 38,
        Msg::CalUsingDefaults => 39,
        Msg::CalRecalibrating => 40,
    }
}

impl Msg {
    /// The row of this message in the translation tables.
    pub fn index(self) -> (i: usize)
        ensures
            i == msg_index(self),
            i < 41,
    {
        match self {
            Msg::AppTitle => 0,
            Msg::Starting => 1,
            Msg::WifiConnecting => 2,
            Msg::WifiConnectFailed => 3,
            Msg::Restarting => 4,
            Msg::TimeSyncing => 5,
            Msg::PrayerDownloading => 6,
            Msg::PrayerFetchFailed => 7,
            Msg::RetryingInBackground => 8,
            Msg::PrayerDownloadFailed => 9,
            Msg::Retrying => 10,
            Msg::PrayerDataMissing => 11,
            Msg::NextPrayer => 12,
            Msg::SettingsTitle => 13,
            Msg::LanguageHeading => 14,
            Msg::DateHeading => 15,
            Msg::DateMiladi => 16,
            Msg::DateHijri => 17,
            Msg::SystemHeading => 18,
            Msg::WifiMenu => 19,
            Msg::RecalibrateTouch => 20,
            Msg::WifiSetupTitle => 21,
            Msg::WifiScanning => 22,
            Msg::WifiSelectNetwork => 23,
            Msg::WifiEnterManually => 24,
            Msg::WifiRescan => 25,
            Msg::WifiNoNetworks => 26,
            Msg::WifiEnterSsid => 27,
            Msg::WifiEnterPassword => 28,
            Msg::WifiReconnecting => 29,
            Msg::WifiPasswordTooShort => 30,
            Msg::KeySpace => 31,
            Msg::KeyDone => 32,
            Msg::CalTitle => 33,
            Msg::CalTapCrosshair => 34,
            Msg::CalComplete => 35,
            Msg::CalFailed => 36,
            Msg::CalRetry => 37,
            Msg::CalSkipped => 38,
            Msg::CalUsingDefaults => 39,
            Msg::CalRecalibrating => 40,
        }
    }
}

/// Turkish translations, indexed by [`msg_index`].
pub const TEXT_TR: [&'static str; 41] = [
    "Namaz Vakti", // AppTitle
    "Başlatılıyor...", // Starting
    "WiFi'ye bağlanılıyor...", // WifiConnecting
    "WiFi bağlantısı başarısız", // WifiConnectFailed
    "Yeniden başlatılıyor...", // Restarting
    "Saat senkronize ediliyor...", // TimeSyncing
    "Namaz vakitleri indiriliyor...", // PrayerDownloading
    "Namaz vakitleri alınamadı", // PrayerFetchFailed
    "Arka planda tekrar denenecek...", // RetryingInBackground
    "Namaz vakitleri indirilemedi", // PrayerDownloadFailed
    "Tekrar deneniyor...", // Retrying
    "Namaz vakti verisi eksik, yenileniyor...", // PrayerDataMissing
    "SIRADAKİ VAKİT:", // NextPrayer
    "Ayarlar", // SettingsTitle
    "Dil", // LanguageHeading
    "Tarih", // DateHeading
    "Miladi", // DateMiladi
    "Hicri", // DateHijri
    "Sistem", // SystemHeading
    "WiFi", // WifiMenu
    "Dokunmatiği kalibre et", // RecalibrateTouch
    "WiFi Kurulumu", // WifiSetupTitle
    "Ağlar taranıyor...", // WifiScanning
    "Ağınızı seçin", // WifiSelectNetwork
    "Elle gir", // WifiEnterManually
    "Yeniden tara", // WifiRescan
    "Ağ bulunamadı", // WifiNoNetworks
    "Ağ adı", // WifiEnterSsid
    "Parola", // WifiEnterPassword
    "Yeniden bağlanılıyor...", // WifiReconnecting
    "Parola çok kısa (en az 8)", // WifiPasswordTooShort
    "boşluk", // KeySpace
    "Tamam", // KeyDone
    "Dokunmatik Kalibrasyon", // CalTitle
    "Hedefe kalem ile dokunun", // CalTapCrosshair
    "Kalibrasyon tamamlandı", // CalComplete
    "Kalibrasyon başarısız", // CalFailed
    "Lütfen tekrar deneyin", // CalRetry
    "Kalibrasyon atlandı", // CalSkipped
    "Varsayılan değerler kullanılıyor", // CalUsingDefaults
    "Dokunmatik yeniden kalibre ediliyor", // CalRecalibrating
];

/// English translations, indexed by [`msg_index`].
pub const TEXT_EN: [&'static str; 41] = [
    "Prayer Times", // AppTitle
    "Starting...", // Starting
    "Connecting to WiFi...", // WifiConnecting
    "WiFi connection failed", // WifiConnectFailed
    "Restarting...", // Restarting
    "Synchronizing clock...", // TimeSyncing
    "Downloading prayer times...", // PrayerDownloading
    "Could not fetch prayer times", // PrayerFetchFailed
    "Retrying in the background...", // RetryingInBackground
    "Prayer times download failed", // PrayerDownloadFailed
    "Retrying...", // Retrying
    "Prayer data missing, refreshing...", // PrayerDataMissing
    "NEXT PRAYER:", // NextPrayer
    "Settings", // SettingsTitle
    "Language", // LanguageHeading
    "Date", // DateHeading
    "Gregorian", // DateMiladi
    "Hijri", // DateHijri
    "System", // SystemHeading
    "WiFi", // WifiMenu
    "Calibrate touch", // RecalibrateTouch
    "WiFi Setup", // WifiSetupTitle
    "Scanning for networks...", // WifiScanning
    "Select your network", // WifiSelectNetwork
    "Enter manually", // WifiEnterManually
    "Rescan", // WifiRescan
    "No networks found", // WifiNoNetworks
    "Network name", // WifiEnterSsid
    "Password", // WifiEnterPassword
    "Reconnecting...", // WifiReconnecting
    "Password too short (min 8)", // WifiPasswordTooShort
    "space", // KeySpace
    "OK", // KeyDone
    "Touch Calibration", // CalTitle
    "Tap the crosshair with a stylus", // CalTapCrosshair
    "Calibration complete", // CalComplete
    "Calibration failed", // CalFailed
    "Please retry", // CalRetry
    "Calibration skipped", // CalSkipped
    "Using default values", // CalUsingDefaults
    "Recalibrating touch", // CalRecalibrating
];

/// Dutch translations, indexed by [`msg_index`].
pub const TEXT_NL: [&'static str; 41] = [
    "Gebedstijden", // AppTitle
    "Bezig met opstarten...", // Starting
    "Verbinden met wifi...", // WifiConnecting
    "Wifi-verbinding mislukt", // WifiConnectFailed
    "Opnieuw opstarten...", // Restarting
    "Klok synchroniseren...", // TimeSyncing
    "Gebedstijden downloaden...", // PrayerDownloading
    "Kon gebedstijden niet ophalen", // PrayerFetchFailed
    "Opnieuw proberen op de achtergrond...", // RetryingInBackground
    "Downloaden gebedstijden mislukt", // PrayerDownloadFailed
    "Opnieuw proberen...", // Retrying
    "Gebedsgegevens ontbreken, vernieuwen...", // PrayerDataMissing
    "VOLGEND GEBED:", // NextPrayer
    "Instellingen", // SettingsTitle
    "Taal", // LanguageHeading
    "Datum", // DateHeading
    "Gregoriaans", // DateMiladi
    "Hidjri", // DateHijri
    "Systeem", // SystemHeading
    "Wifi", // WifiMenu
    "Aanraking kalibreren", // RecalibrateTouch
    "Wifi-instellingen", // WifiSetupTitle
    "Netwerken zoeken...", // WifiScanning
    "Selecteer uw netwerk", // WifiSelectNetwork
    "Handmatig invoeren", // WifiEnterManually
    "Opnieuw zoeken", // WifiRescan
    "Geen netwerken gevonden", // WifiNoNetworks
    "Netwerknaam", // WifiEnterSsid
    "Wachtwoord", // WifiEnterPassword
    "Opnieuw verbinden...", // WifiReconnecting
    "Wachtwoord te kort (min. 8)", // WifiPasswordTooShort
    "spatie", // KeySpace
    "OK", // KeyDone
    "Aanraakkalibratie", // CalTitle
    "Tik met een stylus op het kruis", // CalTapCrosshair
    "Kalibratie voltooid", // CalComplete
    "Kalibratie mislukt", // CalFailed
    "Probeer opnieuw", // CalRetry
    "Kalibratie overgeslagen", // CalSkipped
    "Standaardwaarden gebruiken", // CalUsingDefaults
    "Aanraking opnieuw kalibreren", // CalRecalibrating
];

/// Arabic translations (logical order; shaped for display by `crate::arabic`), indexed by [`msg_index`].
pub const TEXT_AR: [&'static str; 41] = [
    "أوقات الصلاة", // AppTitle
    "جاري البدء...", // Starting
    "جاري الاتصال بالواي فاي...", // WifiConnecting
    "فشل الاتصال بالواي فاي", // WifiConnectFailed
    "جاري إعادة التشغيل...", // Restarting
    "جاري مزامنة الساعة...", // TimeSyncing
    "جاري تنزيل أوقات الصلاة...", // PrayerDownloading
    "تعذر جلب أوقات الصلاة", // PrayerFetchFailed
    "ستتم إعادة المحاولة في الخلفية...", // RetryingInBackground
    "فشل تنزيل أوقات الصلاة", // PrayerDownloadFailed
    "جاري إعادة المحاولة...", // Retrying
    "بيانات الصلاة ناقصة، جارٍ التحديث...", // PrayerDataMissing
    "الصلاة القادمة:", // NextPrayer
    "الإعدادات", // SettingsTitle
    "اللغة", // LanguageHeading
    "التاريخ", // DateHeading
    "ميلادي", // DateMiladi
    "هجري", // DateHijri
    "النظام", // SystemHeading
    "واي فاي", // WifiMenu
    "معايرة اللمس", // RecalibrateTouch
    "إعداد الواي فاي", // WifiSetupTitle
    "جاري البحث عن الشبكات...", // WifiScanning
    "اختر شبكتك", // WifiSelectNetwork
    "إدخال يدوي", // WifiEnterManually
    "إعادة البحث", // WifiRescan
    "لم يتم العثور على شبكات", // WifiNoNetworks
    "اسم الشبكة", // WifiEnterSsid
    "كلمة المرور", // WifiEnterPassword
    "جاري إعادة الاتصال...", // WifiReconnecting
    "كلمة المرور قصيرة جدًا (8 على الأقل)", // WifiPasswordTooShort
    "مسافة", // KeySpace
    "موافق", // KeyDone
    "معايرة اللمس", // CalTitle
    "المس التقاطع بالقلم", // CalTapCrosshair
    "اكتملت المعايرة", // CalComplete
    "فشلت المعايرة", // CalFailed
    "يرجى إعادة المحاولة", // CalRetry
    "تم تخطي المعايرة", // CalSkipped
    "استخدام القيم الافتراضية", // CalUsingDefaults
    "إعادة معايرة اللمس", // CalRecalibrating
];

/// The translation table of a language.
pub open spec fn text_table(lang: Language) -> [&'static str; 41] {
    match lang {
        Language::Turkish => TEXT_TR,
        Language::English => TEXT_EN,
        Language::Nederlands => TEXT_NL,
        Language::Arabic => TEXT_AR,
    }
}

/// The translation of `msg` in `lang`.
pub open spec fn translation(lang: Language, msg: Msg) -> &'static str {
    text_table(lang)[msg_index(msg)]
}

/// Resolves a [`Msg`] to its translation in `lang`.
pub fn text(lang: Language, msg: Msg) -> (s: &'static str)
    ensures
        s == translation(lang, msg),
{
    let i = msg.index();
    match lang {
        Language::Turkish => TEXT_TR[i],
        Language::English => TEXT_EN[i],
        Language::Nederlands => TEXT_NL[i],
        Language::Arabic => TEXT_AR[i],
    }
}

/// The endonym of each language.
pub open spec fn endonym(lang: Language) -> &'static str {
    match lang {
        Language::Turkish => "Türkçe",
        Language::English => "English",
        Language::Nederlands => "Nederlands",
        Language::Arabic => "العربية",
    }
}

/// Endonym shown for each language option in the settings selector. Each name
/// is written in its own script regardless of the currently active language.
pub fn language_label(lang: Language) -> (s: &'static str)
    ensures
        s@ == endonym(lang)@,
{
    match lang {
        Language::Turkish => "Türkçe",
        Language::English => "English",
        Language::Nederlands => "Nederlands",
        Language::Arabic => "العربية",
    }
}

/// The persisted byte of a language reads back as the same language, and
/// different languages never share a byte.
pub proof fn lemma_language_byte_round_trip(l: Language, m: Language)
    ensures
        byte_language(language_byte(l)) == l,
        language_byte(l) < 4,
        language_byte(l) == language_byte(m) ==> l == m,
{
}

/// A byte that no language uses reads back as the default, Turkish.
pub proof fn lemma_unknown_byte_is_turkish(b: u8)
    requires
        b >= 4,
    ensures
        byte_language(b) == Language::Turkish,
{
}

/// The settings screen lists every language exactly once.
pub proof fn lemma_all_lists_each_language_once(l: Language)
    ensures
        exists|i: int| 0 <= i < 4 && #[trigger] Language::ALL[i] == l,
        forall|i: int, j: int| 0 <= i < j < 4 ==> Language::ALL[i] != Language::ALL[j],
{
    let i: int = match l {
        Language::Arabic => 0,
        Language::English => 1,
        Language::Nederlands => 2,
        Language::Turkish => 3,
    };
    assert(Language::ALL[i] == l);
}


/// Every message has a non-empty translation in every language.
pub proof fn lemma_translations_non_empty(lang: Language, msg: Msg)
    ensures
        translation(lang, msg)@.len() > 0,
{
    assert(forall|i: int| 0 <= i < 41 ==> TEXT_TR[i]@.len() > 0) by {
        reveal_strlit("Namaz Vakti");
        reveal_strlit("Başlatılıyor...");
        reveal_strlit("WiFi'ye bağlanılıyor...");
        reveal_strlit("WiFi bağlantısı başarısız");
        reveal_strlit("Yeniden başlatılıyor...");
        reveal_strlit("Saat senkronize ediliyor...");
        reveal_strlit("Namaz vakitleri indiriliyor...");
        reveal_strlit("Namaz vakitleri alınamadı");
        reveal_strlit("Arka planda tekrar denenecek...");
        reveal_strlit("Namaz vakitleri indirilemedi");
        reveal_strlit("Tekrar deneniyor...");
        reveal_strlit("Namaz vakti verisi eksik, yenileniyor...");
        reveal_strlit("SIRADAKİ VAKİT:");
        reveal_strlit("Ayarlar");
        reveal_strlit("Dil");
        reveal_strlit("Tarih");
        reveal_strlit("Miladi");
        reveal_strlit("Hicri");
        reveal_strlit("Sistem");
        reveal_strlit("WiFi");
        reveal_strlit("Dokunmatiği kalibre et");
        reveal_strlit("WiFi Kurulumu");
        reveal_strlit("Ağlar taranıyor...");
        reveal_strlit("Ağınızı seçin");
        reveal_strlit("Elle gir");
        reveal_strlit("Yeniden tara");
        reveal_strlit("Ağ bulunamadı");
        reveal_strlit("Ağ adı");
        reveal_strlit("Parola");
        reveal_strlit("Yeniden bağlanılıyor...");
        reveal_strlit("Parola çok kısa (en az 8)");
        reveal_strlit("boşluk");
        reveal_strlit("Tamam");
        reveal_strlit("Dokunmatik Kalibrasyon");
        reveal_strlit("Hedefe kalem ile dokunun");
        reveal_strlit("Kalibrasyon tamamlandı");
        reveal_strlit("Kalibrasyon başarısız");
        reveal_strlit("Lütfen tekrar deneyin");
        reveal_strlit("Kalibrasyon atlandı");
        reveal_strlit("Varsayılan değerler kullanılıyor");
        reveal_strlit("Dokunmatik yeniden kalibre ediliyor");
    }
    assert(forall|i: int| 0 <= i < 41 ==> TEXT_EN[i]@.len() > 0) by {
        reveal_strlit("Prayer Times");
        reveal_strlit("Starting...");
        reveal_strlit("Connecting to WiFi...");
        reveal_strlit("WiFi connection failed");
        reveal_strlit("Restarting...");
        reveal_strlit("Synchronizing clock...");
        reveal_strlit("Downloading prayer times...");
        reveal_strlit("Could not fetch prayer times");
        reveal_strlit("Retrying in the background...");
        reveal_strlit("Prayer times download failed");
        reveal_strlit("Retrying...");
        reveal_strlit("Prayer data missing, refreshing...");
        reveal_strlit("NEXT PRAYER:");
        reveal_strlit("Settings");
        reveal_strlit("Language");
        reveal_strlit("Date");
        reveal_strlit("Gregorian");
        reveal_strlit("Hijri");
        reveal_strlit("System");
        reveal_strlit("WiFi");
        reveal_strlit("Calibrate touch");
        reveal_strlit("WiFi Setup");
        reveal_strlit("Scanning for networks...");
        reveal_strlit("Select your network");
        reveal_strlit("Enter manually");
        reveal_strlit("Rescan");
        reveal_strlit("No networks found");
        reveal_strlit("Network name");
        reveal_strlit("Password");
        reveal_strlit("Reconnecting...");
        reveal_strlit("Password too short (min 8)");
        reveal_strlit("space");
        reveal_strlit("OK");
        reveal_strlit("Touch Calibration");
        reveal_strlit("Tap the crosshair with a stylus");
        reveal_strlit("Calibration complete");
        reveal_strlit("Calibration failed");
        reveal_strlit("Please retry");
        reveal_strlit("Calibration skipped");
        reveal_strlit("Using default values");
        reveal_strlit("Recalibrating touch");
    }
    assert(forall|i: int| 0 <= i < 41 ==> TEXT_NL[i]@.len() > 0) by {
        reveal_strlit("Gebedstijden");
        reveal_strlit("Bezig met opstarten...");
        reveal_strlit("Verbinden met wifi...");
        reveal_strlit("Wifi-verbinding mislukt");
        reveal_strlit("Opnieuw opstarten...");
        reveal_strlit("Klok synchroniseren...");
        reveal_strlit("Gebedstijden downloaden...");
        reveal_strlit("Kon gebedstijden niet ophalen");
        reveal_strlit("Opnieuw proberen op de achtergrond...");
        reveal_strlit("Downloaden gebedstijden mislukt");
        reveal_strlit("Opnieuw proberen...");
        reveal_strlit("Gebedsgegevens ontbreken, vernieuwen...");
        reveal_strlit("VOLGEND GEBED:");
        reveal_strlit("Instellingen");
        reveal_strlit("Taal");
        reveal_strlit("Datum");
        reveal_strlit("Gregoriaans");
        reveal_strlit("Hidjri");
        reveal_strlit("Systeem");
        reveal_strlit("Wifi");
        reveal_strlit("Aanraking kalibreren");
        reveal_strlit("Wifi-instellingen");
        reveal_strlit("Netwerken zoeken...");
        reveal_strlit("Selecteer uw netwerk");
        reveal_strlit("Handmatig invoeren");
        reveal_strlit("Opnieuw zoeken");
        reveal_strlit("Geen netwerken gevonden");
        reveal_strlit("Netwerknaam");
        reveal_strlit("Wachtwoord");
        reveal_strlit("Opnieuw verbinden...");
        reveal_strlit("Wachtwoord te kort (min. 8)");
        reveal_strlit("spatie");
        reveal_strlit("OK");
        reveal_strlit("Aanraakkalibratie");
        reveal_strlit("Tik met een stylus op het kruis");
        reveal_strlit("Kalibratie voltooid");
        reveal_strlit("Kalibratie mislukt");
        reveal_strlit("Probeer opnieuw");
        reveal_strlit("Kalibratie overgeslagen");
        reveal_strlit("Standaardwaarden gebruiken");
        reveal_strlit("Aanraking opnieuw kalibreren");
    }
    assert(forall|i: int| 0 <= i < 41 ==> TEXT_AR[i]@.len() > 0) by {
        reveal_strlit("أوقات الصلاة");
        reveal_strlit("جاري البدء...");
        reveal_strlit("جاري الاتصال بالواي فاي...");
        reveal_strlit("فشل الاتصال بالواي فاي");
        reveal_strlit("جاري إعادة التشغيل...");
        reveal_strlit("جاري مزامنة الساعة...");
        reveal_strlit("جاري تنزيل أوقات الصلاة...");
        reveal_strlit("تعذر جلب أوقات الصلاة");
        reveal_strlit("ستتم إعادة المحاولة في الخلفية...");
        reveal_strlit("فشل تنزيل أوقات الصلاة");
        reveal_strlit("جاري إعادة المحاولة...");
        reveal_strlit("بيانات الصلاة ناقصة، جارٍ التحديث...");
        reveal_strlit("الصلاة القادمة:");
        reveal_strlit("الإعدادات");
        reveal_strlit("اللغة");
        reveal_strlit("التاريخ");
        reveal_strlit("ميلادي");
        reveal_strlit("هجري");
        reveal_strlit("النظام");
        reveal_strlit("واي فاي");
        reveal_strlit("معايرة اللمس");
        reveal_strlit("إعداد الواي فاي");
        reveal_strlit("جاري البحث عن الشبكات...");
        reveal_strlit("اختر شبكتك");
        reveal_strlit("إدخال يدوي");
        reveal_strlit("إعادة البحث");
        reveal_strlit("لم يتم العثور على شبكات");
        reveal_strlit("اسم الشبكة");
        reveal_strlit("كلمة المرور");
        reveal_strlit("جاري إعادة الاتصال...");
        reveal_strlit("كلمة المرور قصيرة جدًا (8 على الأقل)");
        reveal_strlit("مسافة");
        reveal_strlit("موافق");
        reveal_strlit("معايرة اللمس");
        reveal_strlit("المس التقاطع بالقلم");
        reveal_strlit("اكتملت المعايرة");
        reveal_strlit("فشلت المعايرة");
        reveal_strlit("يرجى إعادة المحاولة");
        reveal_strlit("تم تخطي المعايرة");
        reveal_strlit("استخدام القيم الافتراضية");
        reveal_strlit("إعادة معايرة اللمس");
    }
    assert(0 <= msg_index(msg) < 41);
}

/// Every prayer name and every weekday name is non-empty in every language.
pub proof fn lemma_names_non_empty(lang: Language)
    ensures
        forall|i: int| 0 <= i < 5 ==> (#[trigger] prayer_table(lang)[i])@.len() > 0,
        forall|i: int| 0 <= i < 7 ==> (#[trigger] weekday_table(lang)[i])@.len() > 0,
{
    assert(forall|i: int| 0 <= i < 5 ==> PRAYER_NAMES_TR[i]@.len() > 0) by {
        reveal_strlit("İMSAK");
        reveal_strlit("ÖĞLE");
        reveal_strlit("İKİNDİ");
        reveal_strlit("AKŞAM");
        reveal_strlit("YATSI");
    }
    assert(forall|i: int| 0 <= i < 5 ==> PRAYER_NAMES_EN[i]@.len() > 0) by {
        reveal_strlit("FAJR");
        reveal_strlit("DHUHR");
        reveal_strlit("ASR");
        reveal_strlit("MAGHRIB");
        reveal_strlit("ISHA");
    }
    assert(forall|i: int| 0 <= i < 5 ==> PRAYER_NAMES_AR[i]@.len() > 0) by {
        reveal_strlit("الفجر");
        reveal_strlit("الظهر");
        reveal_strlit("العصر");
        reveal_strlit("المغرب");
        reveal_strlit("العشاء");
    }
    assert(forall|i: int| 0 <= i < 5 ==> PRAYER_NAMES_NL[i]@.len() > 0) by {
        reveal_strlit("FAJR");
        reveal_strlit("DHUHR");
        reveal_strlit("ASR");
        reveal_strlit("MAGHRIB");
        reveal_strlit("ISHA");
    }
    assert(forall|i: int| 0 <= i < 7 ==> WEEKDAY_NAMES_TR[i]@.len() > 0) by {
        reveal_strlit("PAZAR");
        reveal_strlit("PAZARTESİ");
        reveal_strlit("SALI");
        reveal_strlit("ÇARŞAMBA");
        reveal_strlit("PERŞEMBE");
        reveal_strlit("CUMA");
        reveal_strlit("CUMARTESİ");
    }
    assert(forall|i: int| 0 <= i < 7 ==> WEEKDAY_NAMES_EN[i]@.len() > 0) by {
        reveal_strlit("SUNDAY");
        reveal_strlit("MONDAY");
        reveal_strlit("TUESDAY");
        reveal_strlit("WEDNESDAY");
        reveal_strlit("THURSDAY");
        reveal_strlit("FRIDAY");
        reveal_strlit("SATURDAY");
    }
    assert(forall|i: int| 0 <= i < 7 ==> WEEKDAY_NAMES_NL[i]@.len() > 0) by {
        reveal_strlit("ZONDAG");
        reveal_strlit("MAANDAG");
        reveal_strlit("DINSDAG");
        reveal_strlit("WOENSDAG");
        reveal_strlit("DONDERDAG");
        reveal_strlit("VRIJDAG");
        reveal_strlit("ZATERDAG");
    }
    assert(forall|i: int| 0 <= i < 7 ==> WEEKDAY_NAMES_AR[i]@.len() > 0) by {
        reveal_strlit("الأحد");
        reveal_strlit("الإثنين");
        reveal_strlit("الثلاثاء");
        reveal_strlit("الأربعاء");
        reveal_strlit("الخميس");
        reveal_strlit("الجمعة");
        reveal_strlit("السبت");
    }
}

} // verus!
