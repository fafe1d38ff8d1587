//! The command line's choices of download source and output format, and the
//! request body of the Huawei AppGallery client API.
use vstd::prelude::*;
use vstd::string::*;
use crate::text::str_equal;

verus! {

/// Where apps are downloaded from.
#[derive(Debug, Clone, Copy, PartialEq, Eq, Structural)]
pub enum DownloadSource {
    APKPure,
    GooglePlay,
    FDroid,
    HuaweiAppGallery,
}

/// The name of a download source on the command line.
pub open spec fn source_name(d: DownloadSource) -> Seq<char> {
    match d {
        DownloadSource::APKPure => "apk-pure"@,
        DownloadSource::GooglePlay => "google-play"@,
        DownloadSource::FDroid => "f-droid"@,
        DownloadSource::HuaweiAppGallery => "huawei-app-gallery"@,
    }
}

impl DownloadSource {
    /// The name of the source on the command line.
    pub fn name(&self) -> (r: &'static str)
        ensures
            r@ == source_name(*self),
    {
        match self {
            DownloadSource::APKPure => "apk-pure",
            DownloadSource::GooglePlay => "google-play",
            DownloadSource::FDroid => "f-droid",
            DownloadSource::HuaweiAppGallery => "huawei-app-gallery",
        }
    }

    /// The source that `s` names exactly, or a message naming `s`.
    pub fn from_str(s: &str) -> (r: Result<DownloadSource, String>)
        ensures
            match r {
                Ok(d) => source_name(d) == s@,
                Err(m) => m@ == "Invalid variant: "@ + s@ && forall|d: DownloadSource|
                    source_name(d) != s@,
            },
    {
        if str_equal(s, "apk-pure") {
            return Ok(DownloadSource::APKPure);
        }
        if str_equal(s, "google-play") {
            return Ok(DownloadSource::GooglePlay);
        }
        if str_equal(s, "f-droid") {
            return Ok(DownloadSource::FDroid);
        }
        if str_equal(s, "huawei-app-gallery") {
            return Ok(DownloadSource::HuaweiAppGallery);
        }
        assert forall|d: DownloadSource| source_name(d) != s@ by {
            match d {
                DownloadSource::APKPure => {},
                DownloadSource::GooglePlay => {},
                DownloadSource::FDroid => {},
                DownloadSource::HuaweiAppGallery => {},
            }
        }
        Err(String::from_str("Invalid variant: ").concat(s))
    }
}

/// How results are printed.
#[derive(Debug, Clone, Copy, PartialEq, Eq, Structural)]
pub enum OutputFormat {
    Json,
    Plaintext,
}

impl OutputFormat {
    pub fn is_json(&self) -> (r: bool)
        ensures
            r == (*self == OutputFormat::Json),
    {
        match self {
            OutputFormat::Json => true,
            OutputFormat::Plaintext => false,
        }
    }

    pub fn is_plaintext(&self) -> (r: bool)
        ensures
            r == (*self == OutputFormat::Plaintext),
    {
        match self {
            OutputFormat::Plaintext => true,
            OutputFormat::Json => false,
        }
    }
}

/// The form fields of a Huawei AppGallery update check before the package
/// name.
pub const CLIENT_API_BODY_HEAD: &'static str = "agVersion=12.0.1&brand=Android&buildNumber=QQ2A.200405.005.2020.04.07.17&density=420&deviceSpecParams=%7B%22abis%22%3A%22arm64-v8a%2Carmeabi-v7a%2Carmeabi%22%2C%22deviceFeatures%22%3A%22U%2CP%2CB%2C0c%2Ce%2C0J%2Cp%2Ca%2Cb%2C04%2Cm%2Candroid.hardware.wifi.rtt%2Ccom.google.hardware.camera.easel%2Ccom.google.android.feature.PIXEL_2017_EXPERIENCE%2C08%2C03%2CC%2CS%2C0G%2Cq%2CL%2C2%2C6%2CY%2CZ%2C0M%2Candroid.hardware.vr.high_performance%2Cf%2C1%2C07%2C8%2C9%2Candroid.hardware.sensor.hifi_sensors%2CO%2CH%2Ccom.google.android.feature.TURBO_PRELOAD%2Candroid.hardware.vr.headtracking%2CW%2Cx%2CG%2Co%2C06%2C0N%2Ccom.google.android.feature.PIXEL_EXPERIENCE%2C3%2CR%2Cd%2CQ%2Cn%2Candroid.hardware.telephony.carrierlock%2Cy%2CT%2Ci%2Cr%2Cu%2Ccom.google.android.feature.WELLBEING%2Cl%2C4%2C0Q%2CN%2CM%2C01%2C09%2CV%2C7%2C5%2C0H%2Cg%2Cs%2Cc%2C0l%2Ct%2C0L%2C0W%2C0X%2Ck%2C00%2Ccom.google.android.feature.GOOGLE_EXPERIENCE%2Candroid.hardware.sensor.assist%2Candroid.hardware.audio.pro%2CK%2CE%2C02%2CI%2CJ%2Cj%2CD%2Ch%2Candroid.hardware.wifi.aware%2C05%2CX%2Cv%22%2C%22dpi%22%3A420%2C%22preferLan%22%3A%22en%22%7D&emuiApiLevel=0&firmwareVersion=10&getSafeGame=1&gmsSupport=0&hardwareType=0&harmonyApiLevel=0&harmonyDeviceType=&installCheck=0&isFullUpgrade=0&isUpdateSdk=1&locale=en_US&magicApiLevel=0&magicVer=&manufacturer=Google&mapleVer=0&method=client.updateCheck&odm=0&packageName=com.huawei.appmarket&phoneType=Pixel%202&pkgInfo=%7B%22params%22%3A%5B%7B%22isPre%22%3A0%2C%22maple%22%3A0%2C%22oldVersion%22%3A%221.0%22%2C%22package%22%3A%22";

/// The form fields of a Huawei AppGallery update check after the package name.
pub const CLIENT_API_BODY_TAIL: &'static str = "%22%2C%22pkgMode%22%3A0%2C%22shellApkVer%22%3A0%2C%22targetSdkVersion%22%3A19%2C%22versionCode%22%3A1%7D%5D%7D&resolution=1080_1794&sdkVersion=4.0.1.300&serviceCountry=IE&serviceType=0&supportMaple=0&ts=1649970862661&ver=1.2&version=12.0.1.301&versionCode=120001301";

/// The body of a Huawei AppGallery update check for `app_id`.
pub fn client_api_body(app_id: &str) -> (r: String)
    ensures
        r@ == CLIENT_API_BODY_HEAD@ + app_id@ + CLIENT_API_BODY_TAIL@,
{
    String::from_str(CLIENT_API_BODY_HEAD).concat(app_id).concat(CLIENT_API_BODY_TAIL)
}

} // verus!
