//! Protocol-specific definitions a channel can carry.

use vstd::prelude::*;

verus! {

/// Protocol-specific information for an AMQP 1.0 channel.
pub struct AMQP1ChannelBinding {}

/// Protocol-specific information for an AMQP 0-9-1 channel.
pub struct AMQPChannelBinding {
    pub is: Option<String>,
    pub exchange: Option<AMQPChannelBindingExchange>,
    pub queue: Option<AMQPChannelBindingQueue>,
    pub binding_version: Option<String>,
}

/// Part of the AMQP 0-9-1 channel binding.
pub struct AMQPChannelBindingExchange {
    pub name: Option<String>,
    pub typ: Option<String>,
    pub durable: Option<bool>,
    pub auto_delete: Option<bool>,
    pub vhost: Option<String>,
}

/// Part of the AMQP 0-9-1 channel binding.
pub struct AMQPChannelBindingQueue {
    pub name: Option<String>,
    pub durable: Option<bool>,
    pub exclusive: Option<bool>,
    pub auto_delete: Option<bool>,
    pub vhost: Option<String>,
}

/// Protocol-specific information for an Anypoint MQ channel.
pub struct AnyPointMQChannelBinding {
    pub destination: Option<String>,
    pub destination_type: Option<String>,
    pub binding_version: Option<String>,
}

/// Protocol-specific information for an HTTP channel.
pub struct HTTPChannelBinding {}

/// Protocol-specific information for an IBM MQ channel.
pub struct IBMMQChannelBinding {
    pub destination_type: Option<String>,
    pub queue: Option<IBMMQChannelBindingQueue>,
    pub topic: Option<IBMMQChannelBindingTopic>,
    pub max_msg_length: Option<i32>,
    pub binding_version: Option<String>,
}

/// Part of the IBM MQ channel binding.
pub struct IBMMQChannelBindingQueue {
    pub object_name: String,
    pub is_partitioned: Option<bool>,
    pub exclusive: Option<bool>,
}

/// Part of the IBM MQ channel binding.
pub struct IBMMQChannelBindingTopic {
    pub string: Option<String>,
    pub object_name: Option<String>,
    pub durable_permitted: Option<bool>,
    pub last_msg_retained: Option<bool>,
}

/// Protocol-specific information for a JMS channel.
pub struct JMSChannelBinding {}

/// Protocol-specific information for a Kafka channel.
pub struct KafkaChannelBinding {}

/// Protocol-specific information for an MQTT 5 channel.
pub struct MQTT5ChannelBinding {}

/// Protocol-specific information for an MQTT channel.
pub struct MQTTChannelBinding {}

/// Protocol-specific information for a Mercure channel.
pub struct MercureChannelBinding {}

/// Protocol-specific information for a NATS channel.
pub struct NATSChannelBinding {}

/// Protocol-specific information for a Redis channel.
pub struct RedisChannelBinding {}

/// Protocol-specific information for an SNS channel.
pub struct SNSChannelBinding {}

/// Protocol-specific information for an SQS channel.
pub struct SQSChannelBinding {}

/// Protocol-specific information for a STOMP channel.
pub struct STOMPChannelBinding {}

/// Protocol-specific information for a Solace channel.
pub struct SolaceChannelBinding {}

} // verus!
