//! The single list of mainland-China domains that must always resolve to a
//! real address and go direct. Both the generated sing-box configuration (DNS
//! and route rules) and the Windows system-proxy bypass list are built from it.
use vstd::prelude::*;
use crate::json::{strs_view, strings};
use crate::text::push_str;

verus! {

/// Canonical CN-core domain suffixes (matched as `domain_suffix`, so `qq.com`
/// also covers `weixin.qq.com`).
pub open spec fn cn_direct_suffix_list() -> Seq<Seq<char>> {
    seq![
        "qq.com"@,
        "wechat.com"@,
        "weixin.com"@,
        "weixin.qq.com"@,
        "tencent.com"@,
        "tencentcloudapi.com"@,
        "qcloud.com"@,
        "gtimg.cn"@,
        "qpic.cn"@,
        "myqcloud.com"@,
        "tenpay.com"@,
        "taobao.com"@,
        "tmall.com"@,
        "alicdn.com"@,
        "tbcdn.cn"@,
        "alipay.com"@,
        "alibaba.com"@,
        "aliyun.com"@,
        "aliyuncs.com"@,
        "amap.com"@,
        "autonavi.com"@,
        "dingtalk.com"@,
        "baidu.com"@,
        "bdstatic.com"@,
        "bcebos.com"@,
        "bytedance.com"@,
        "toutiao.com"@,
        "douyin.com"@,
        "feishu.cn"@,
        "feishu.com"@,
        "bilibili.com"@,
        "bilivideo.com"@,
        "hdslb.com"@,
        "weibo.com"@,
        "sinaimg.cn"@,
        "sina.com"@,
        "163.com"@,
        "126.net"@,
        "netease.com"@,
        "zhihu.com"@,
        "zhimg.com"@,
        "jd.com"@,
        "jdcdn.com"@,
        "meituan.com"@,
        "meituan.net"@,
        "xiaohongshu.com"@,
        "pinduoduo.com"@,
        "iqiyi.com"@,
        "youku.com"@,
        "sohu.com"@,
        "mgtv.com"@,
        "xiaomi.com"@,
        "mi.com"@,
        "miui.com"@,
        "huawei.com"@,
        "hicloud.com"@,
        "12306.cn"@,
    ]
}

/// The CN-core domain suffixes, in order.
pub fn cn_direct_suffixes() -> (r: Vec<String>)
    ensures
        strs_view(r@) == cn_direct_suffix_list(),
{
    let v: Vec<&str> = vec![
        "qq.com",
        "wechat.com",
        "weixin.com",
        "weixin.qq.com",
        "tencent.com",
        "tencentcloudapi.com",
        "qcloud.com",
        "gtimg.cn",
        "qpic.cn",
        "myqcloud.com",
        "tenpay.com",
        "taobao.com",
        "tmall.com",
        "alicdn.com",
        "tbcdn.cn",
        "alipay.com",
        "alibaba.com",
        "aliyun.com",
        "aliyuncs.com",
        "amap.com",
        "autonavi.com",
        "dingtalk.com",
        "baidu.com",
        "bdstatic.com",
        "bcebos.com",
        "bytedance.com",
        "toutiao.com",
        "douyin.com",
        "feishu.cn",
        "feishu.com",
        "bilibili.com",
        "bilivideo.com",
        "hdslb.com",
        "weibo.com",
        "sinaimg.cn",
        "sina.com",
        "163.com",
        "126.net",
        "netease.com",
        "zhihu.com",
        "zhimg.com",
        "jd.com",
        "jdcdn.com",
        "meituan.com",
        "meituan.net",
        "xiaohongshu.com",
        "pinduoduo.com",
        "iqiyi.com",
        "youku.com",
        "sohu.com",
        "mgtv.com",
        "xiaomi.com",
        "mi.com",
        "miui.com",
        "huawei.com",
        "hicloud.com",
        "12306.cn",
    ];
    proof {
        assert(v@.map_values(|s: &str| s@) =~= cn_direct_suffix_list());
    }
    strings(v)
}

/// WeChat desktop process names, routed direct in TUN mode.
pub open spec fn wechat_process_list() -> Seq<Seq<char>> {
    seq!["WeChat.exe"@, "WeChatApp.exe"@, "WeChatWeb.exe"@]
}

/// The WeChat desktop process names, in order.
pub fn wechat_processes() -> (r: Vec<String>)
    ensures
        strs_view(r@) == wechat_process_list(),
{
    let v: Vec<&str> = vec!["WeChat.exe", "WeChatApp.exe", "WeChatWeb.exe"];
    proof {
        assert(v@.map_values(|s: &str| s@) =~= wechat_process_list());
    }
    strings(v)
}

/// `;*.<suffix>` for every suffix, in order.
pub open spec fn override_fragment(suffixes: Seq<Seq<char>>) -> Seq<char>
    decreases suffixes.len(),
{
    if suffixes.len() == 0 {
        Seq::empty()
    } else {
        override_fragment(suffixes.drop_last()) + ";*."@ + suffixes.last()
    }
}

/// The WinINet `ProxyOverride` fragment for the CN-direct domains:
/// `;*.qq.com;*.wechat.com;…` (leading `;`, no trailing `;`).
pub fn proxy_override_fragment() -> (r: String)
    ensures
        r@ == override_fragment(cn_direct_suffix_list()),
{
    let list = cn_direct_suffixes();
    let mut out = String::new();
    let mut i: usize = 0;
    while i < list.len()
        invariant
            0 <= i <= list.len(),
            strs_view(list@) == cn_direct_suffix_list(),
            out@ == override_fragment(strs_view(list@).subrange(0, i as int)),
        decreases list.len() - i,
    {
        push_str(&mut out, ";*.");
        push_str(&mut out, list[i].as_str());
        proof {
            let t = strs_view(list@).subrange(0, i + 1);
            assert(t.drop_last() =~= strs_view(list@).subrange(0, i as int));
        }
        i += 1;
    }
    proof {
        assert(strs_view(list@).subrange(0, i as int) =~= strs_view(list@));
    }
    out
}

} // verus!
